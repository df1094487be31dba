//! Translating the firmware's memory map for the kernel.

use vstd::prelude::*;
use crate::handoff::MemoryMapEntry;

verus! {

/// The size of a firmware page in bytes.
pub const PAGE_SIZE: u64 = 4096;

/// How many entries more than the firmware's estimate the translated map
/// has room for: asking for the map can itself add regions to it.
pub const MEMORY_MAP_SLACK: usize = 8;

/// One region as the firmware reports it.
#[derive(Clone, Copy, Debug, PartialEq, Eq, Structural)]
pub struct FirmwareRegion {
    /// The firmware's type tag.
    pub ty: u32,
    /// The physical address at which the region starts.
    pub phys_start: u64,
    /// The region's size in pages.
    pub page_count: u64,
}

impl FirmwareRegion {
    /// One past the last address of the region.
    pub open spec fn end(self) -> int {
        self.phys_start + self.page_count * PAGE_SIZE
    }

    /// Whether the region's end is an address.
    pub open spec fn in_range(self) -> bool {
        self.end() <= u64::MAX
    }

    /// The entry that stands for the region in the kernel's map: the same
    /// tag and start, and the end in place of the page count.
    pub open spec fn translated(self) -> MemoryMapEntry {
        MemoryMapEntry { uefi_type: self.ty, start: self.phys_start, end: self.end() as u64 }
    }
}

/// How many entries to make room for, given the size in bytes of the
/// firmware's map and of one of its descriptors.
pub fn memory_map_capacity(map_size: usize, entry_size: usize) -> (capacity: usize)
    requires
        entry_size > 0,
        map_size / entry_size + MEMORY_MAP_SLACK <= usize::MAX,
    ensures
        capacity == map_size / entry_size + MEMORY_MAP_SLACK,
{
    map_size / entry_size + MEMORY_MAP_SLACK
}

/// Whether the end of `region` is an address.
pub fn region_in_range(region: &FirmwareRegion) -> (in_range: bool)
    ensures
        in_range == region.in_range(),
{
    region.page_count <= (u64::MAX - region.phys_start) / PAGE_SIZE
}

/// Translates one region.
pub fn translate_region(region: &FirmwareRegion) -> (entry: MemoryMapEntry)
    requires
        region.in_range(),
    ensures
        entry == region.translated(),
{
    MemoryMapEntry {
        uefi_type: region.ty,
        start: region.phys_start,
        end: region.phys_start + region.page_count * PAGE_SIZE,
    }
}

/// Adds the translation of every region to `memory_map`, in the firmware's
/// order: one entry for each region, with its tag, its start and its end.
pub fn translate_memory_map(regions: &[FirmwareRegion], memory_map: &mut Vec<MemoryMapEntry>)
    requires
        forall|i: int| 0 <= i < regions@.len() ==> (#[trigger] regions@[i]).in_range(),
    ensures
        final(memory_map)@.len() == old(memory_map)@.len() + regions@.len(),
        forall|i: int|
            0 <= i < old(memory_map)@.len() ==> final(memory_map)@[i] == old(memory_map)@[i],
        forall|i: int|
            0 <= i < regions@.len() ==> final(memory_map)@[old(memory_map)@.len() + i]
                == (#[trigger] regions@[i]).translated(),
{
    let mut i: usize = 0;
    while i < regions.len()
        invariant
            i <= regions.len(),
            forall|j: int| 0 <= j < regions@.len() ==> (#[trigger] regions@[j]).in_range(),
            memory_map@.len() == old(memory_map)@.len() + i,
            forall|j: int| 0 <= j < old(memory_map)@.len() ==> memory_map@[j] == old(memory_map)@[j],
            forall|j: int|
                0 <= j < i ==> memory_map@[old(memory_map)@.len() + j]
                    == (#[trigger] regions@[j]).translated(),
        decreases regions.len() - i,
    {
        let entry = translate_region(&regions[i]);
        memory_map.push(entry);
        i += 1;
    }
}

} // verus!
