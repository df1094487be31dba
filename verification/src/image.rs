//! The parts of an executable image that the loader works on.

use vstd::prelude::*;

verus! {

/// The segment type of a segment that is copied into memory.
pub const PT_LOAD: u32 = 1;

/// The section type of a relocation table with explicit addends.
pub const SHT_RELA: u32 = 4;

/// The section type of a relocation table without addends.
pub const SHT_REL: u32 = 9;

/// The machine number of the one architecture that the loader boots.
pub const EM_X86_64: u16 = 62;

/// The one relocation type that the loader applies: the patched word is the
/// load base plus the addend.
pub const R_X86_64_RELATIVE: u32 = 8;

/// Word size of an image.
#[derive(Clone, Copy, Debug, PartialEq, Eq, Structural)]
pub enum ElfClass {
    Elf32,
    Elf64,
}

/// The fields of the file header that the loader reads.
#[derive(Clone, Copy, Debug, PartialEq, Eq, Structural)]
pub struct FileHeader {
    pub class: ElfClass,
    pub machine: u16,
    pub entry: u64,
}

/// One entry of the program header table.
#[derive(Clone, Copy, Debug, PartialEq, Eq, Structural)]
pub struct Segment {
    /// The segment type.
    pub kind: u32,
    /// Where the segment's bytes begin in the file.
    pub file_offset: u64,
    /// How many bytes of the file belong to the segment.
    pub file_size: u64,
    /// Where the segment begins in memory, counted from the load base.
    pub virtual_address: u64,
    /// How many bytes the segment takes in memory.
    pub virtual_size: u64,
}

/// One relocation with an explicit addend.
#[derive(Clone, Copy, Debug, PartialEq, Eq, Structural)]
pub struct RelocationRecord {
    /// The relocation type.
    pub kind: u32,
    /// Where to patch, counted from the load base.
    pub target_offset: u64,
    /// The constant that is added to the load base.
    pub addend: i64,
}

impl Segment {
    /// Whether the segment takes part in loading.
    pub open spec fn is_loadable(self) -> bool {
        self.kind == PT_LOAD
    }

    /// Whether the segment's bytes lie inside a file of `file_len` bytes, its
    /// memory size covers them, and its end in memory is an address.
    pub open spec fn fits(self, file_len: nat) -> bool {
        &&& self.file_offset + self.file_size <= file_len
        &&& self.file_size <= self.virtual_size
        &&& self.virtual_address + self.virtual_size <= u64::MAX
    }

    /// One past the last byte that the segment takes in memory.
    pub open spec fn virtual_end(self) -> int {
        self.virtual_address + self.virtual_size
    }
}

/// What the loader needs of a parsed image: where execution starts, the
/// loadable segments in file order, and the relocations in file order.
#[derive(Debug)]
pub struct ImageDescriptor {
    pub entry: u64,
    pub segments: Vec<Segment>,
    pub relocations: Vec<RelocationRecord>,
}

/// The mathematical value of an [`ImageDescriptor`].
pub struct ImageModel {
    pub entry: u64,
    pub segments: Seq<Segment>,
    pub relocations: Seq<RelocationRecord>,
}

impl View for ImageDescriptor {
    type V = ImageModel;

    open spec fn view(&self) -> ImageModel {
        ImageModel { entry: self.entry, segments: self.segments@, relocations: self.relocations@ }
    }
}

impl ImageModel {
    /// Every segment is loadable and fits a file of `file_len` bytes.
    pub open spec fn wf(self, file_len: nat) -> bool {
        forall|i: int|
            0 <= i < self.segments.len() ==> {
                &&& (#[trigger] self.segments[i]).is_loadable()
                &&& self.segments[i].fits(file_len)
            }
    }
}

} // verus!
