//! Why loading a kernel image failed.

use vstd::prelude::*;

verus! {

/// A failure while turning the bytes of a kernel image into a loaded kernel.
/// Every one of them ends the boot attempt.
#[derive(Clone, Copy, Debug, PartialEq, Eq, Structural)]
pub enum LoadError {
    /// The headers or the structure of the image are invalid.
    MalformedImage,
    /// The image is for another machine architecture or word size.
    UnsupportedImage,
    /// The image holds a relocation section without explicit addends.
    UnsupportedRelocationFormat,
    /// A relocation record is of a kind other than the base-relative one.
    UnsupportedRelocation,
    /// The backing buffer could not be allocated.
    OutOfMemory,
}

} // verus!
