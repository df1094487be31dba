//! How much memory a kernel image needs, and the buffer that gives it.

use vstd::prelude::*;
use crate::error::LoadError;
use crate::image::{ImageDescriptor, ImageModel, Segment, PT_LOAD};

verus! {

/// The size of the stack that follows the image in its backing buffer.
pub const STACK_SIZE: usize = 8 * 1024 * 1024;

/// The footprint of a kernel image: `image_extent` bytes for the segments,
/// followed at once by `stack_size` bytes of stack.
#[derive(Clone, Copy, Debug, PartialEq, Eq, Structural)]
pub struct Layout {
    pub image_extent: usize,
    pub stack_size: usize,
}

impl Layout {
    /// The size of the backing buffer.
    pub open spec fn total(self) -> int {
        self.image_extent + self.stack_size
    }
}

/// The largest end in memory of a loadable segment, and 0 where there is none.
pub open spec fn image_extent(segments: Seq<Segment>) -> int
    decreases segments.len(),
{
    if segments.len() == 0 {
        0
    } else {
        let before = image_extent(segments.drop_last());
        let last = segments.last();
        if last.is_loadable() && last.virtual_end() > before {
            last.virtual_end()
        } else {
            before
        }
    }
}

/// The extent is an upper bound of the loadable segments' ends, and it is
/// either 0 or the end of one of them.
pub proof fn lemma_image_extent_is_max(segments: Seq<Segment>)
    ensures
        forall|i: int|
            0 <= i < segments.len() && (#[trigger] segments[i]).is_loadable()
                ==> segments[i].virtual_end() <= image_extent(segments),
        image_extent(segments) == 0 || exists|i: int|
            0 <= i < segments.len() && (#[trigger] segments[i]).is_loadable()
                && segments[i].virtual_end() == image_extent(segments),
    decreases segments.len(),
{
    if segments.len() > 0 {
        lemma_image_extent_is_max(segments.drop_last());
        let before = segments.drop_last();
        assert forall|i: int|
            0 <= i < segments.len() && (#[trigger] segments[i]).is_loadable() implies segments[i].virtual_end()
            <= image_extent(segments) by {
            if i < segments.len() - 1 {
                assert(before[i] == segments[i]);
            }
        }
        if image_extent(segments) != 0 {
            if image_extent(segments) == image_extent(before) {
                let i = choose|i: int|
                    0 <= i < before.len() && (#[trigger] before[i]).is_loadable()
                        && before[i].virtual_end() == image_extent(before);
                assert(segments[i] == before[i]);
            } else {
                assert(segments[segments.len() - 1].is_loadable());
            }
        }
    }
}

/// The layout of an image. An entry address that is not below the extent
/// points at no code, which makes the image malformed; so an image without
/// loadable segments always is. A footprint that no buffer can have counts
/// as memory that cannot be had.
pub open spec fn planned(image: ImageModel) -> Result<Layout, LoadError> {
    let extent = image_extent(image.segments);
    if image.entry >= extent {
        Err(LoadError::MalformedImage)
    } else if extent + STACK_SIZE > usize::MAX {
        Err(LoadError::OutOfMemory)
    } else {
        Ok(Layout { image_extent: extent as usize, stack_size: STACK_SIZE })
    }
}

/// Computes the layout of `image`.
pub fn plan_layout(image: &ImageDescriptor) -> (r: Result<Layout, LoadError>)
    ensures
        r == planned(image@),
{
    let mut extent: u128 = 0;
    let mut i: usize = 0;
    proof {
        assert(image.segments@.take(0) =~= Seq::<Segment>::empty());
    }
    while i < image.segments.len()
        invariant
            i <= image.segments.len(),
            extent == image_extent(image.segments@.take(i as int)),
            extent <= 2 * u64::MAX,
        decreases image.segments.len() - i,
    {
        let segment = image.segments[i];
        proof {
            assert(image.segments@.take(i + 1).drop_last() =~= image.segments@.take(i as int));
        }
        if segment.kind == PT_LOAD {
            let end: u128 = segment.virtual_address as u128 + segment.virtual_size as u128;
            if end > extent {
                extent = end;
            }
        }
        i += 1;
    }
    proof {
        assert(image.segments@.take(i as int) =~= image.segments@);
    }
    if image.entry as u128 >= extent {
        Err(LoadError::MalformedImage)
    } else if extent > (usize::MAX - STACK_SIZE) as u128 {
        Err(LoadError::OutOfMemory)
    } else {
        Ok(Layout { image_extent: extent as usize, stack_size: STACK_SIZE })
    }
}

/// A buffer of `size` zero bytes, or `OutOfMemory` where the allocator
/// refuses it. An empty buffer needs no memory and is always had.
pub fn allocate_backing(size: usize) -> (r: Result<Vec<u8>, LoadError>)
    ensures
        match r {
            Ok(memory) => memory@ == Seq::new(size as nat, |i: int| 0u8),
            Err(e) => e == LoadError::OutOfMemory && size > 0,
        },
{
    let mut memory: Vec<u8> = Vec::new();
    if size > 0 {
        if memory.try_reserve(size).is_err() {
            return Err(LoadError::OutOfMemory);
        }
        memory.resize(size, 0u8);
    }
    Ok(memory)
}

} // verus!
