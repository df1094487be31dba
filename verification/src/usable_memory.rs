//! Which of the memory that the firmware reported the kernel may use.

use vstd::prelude::*;
use crate::handoff::MemoryMapEntry;

verus! {

/// Whether memory of the firmware type `tag` is free for the kernel once the
/// firmware is gone: loader code and data, boot-services code and data, and
/// conventional memory.
pub open spec fn usable_type(tag: u32) -> bool {
    1 <= tag <= 4 || tag == 7
}

/// How many addresses of `start..end` lie in `kernel_start..kernel_end`.
pub open spec fn overlap(start: int, end: int, kernel_start: int, kernel_end: int) -> int {
    let low = if start >= kernel_start {
        start
    } else {
        kernel_start
    };
    let high = if end <= kernel_end {
        end
    } else {
        kernel_end
    };
    if high > low {
        high - low
    } else {
        0
    }
}

/// How many bytes of `entry` the kernel may use: none of a region of another
/// type, and of a usable region those that do not lie in the kernel's own
/// memory, which starts at `kernel_start` and takes `kernel_size` bytes.
pub open spec fn usable_bytes(entry: MemoryMapEntry, kernel_start: u64, kernel_size: u64) -> int {
    if usable_type(entry.uefi_type) {
        (entry.end - entry.start) - overlap(
            entry.start as int,
            entry.end as int,
            kernel_start as int,
            kernel_start + kernel_size,
        )
    } else {
        0
    }
}

/// The sum of the usable bytes of all `entries`.
pub open spec fn usable_total(entries: Seq<MemoryMapEntry>, kernel_start: u64, kernel_size: u64) -> int
    decreases entries.len(),
{
    if entries.len() == 0 {
        0
    } else {
        usable_total(entries.drop_last(), kernel_start, kernel_size) + usable_bytes(
            entries.last(),
            kernel_start,
            kernel_size,
        )
    }
}

/// Whether every usable region among `entries` ends where it starts or
/// behind.
pub open spec fn regions_ordered(entries: Seq<MemoryMapEntry>) -> bool {
    forall|i: int|
        0 <= i < entries.len() && usable_type((#[trigger] entries[i]).uefi_type)
            ==> entries[i].start <= entries[i].end
}

/// Whether the type of `entry` is one that the kernel may use.
pub fn is_cool(entry: &MemoryMapEntry) -> (cool: bool)
    ensures
        cool == usable_type(entry.uefi_type),
{
    (1 <= entry.uefi_type && entry.uefi_type <= 4) || entry.uefi_type == 7
}

/// The usable bytes of one region whose end is not in front of its start.
fn usable_bytes_of(entry: &MemoryMapEntry, kernel_start: u64, kernel_size: u64) -> (bytes: u64)
    requires
        entry.start <= entry.end,
    ensures
        bytes == usable_bytes(*entry, kernel_start, kernel_size),
{
    if !is_cool(entry) {
        return 0;
    }
    let kernel_end: u128 = kernel_start as u128 + kernel_size as u128;
    let low: u64 = if entry.start >= kernel_start {
        entry.start
    } else {
        kernel_start
    };
    let high: u64 = if entry.end as u128 <= kernel_end {
        entry.end
    } else {
        kernel_end as u64
    };
    let inside: u64 = if high > low {
        high - low
    } else {
        0
    };
    entry.end - entry.start - inside
}

/// The number of bytes that the kernel may use: the sizes of the regions of
/// a usable type, without the bytes that lie in the kernel's own memory.
/// `None` where a usable region ends in front of its start, or where the sum
/// does not fit in 64 bits.
pub fn sanitize_uefi(entries: &Vec<MemoryMapEntry>, kernel_start: u64, kernel_size: u64) -> (total:
    Option<u64>)
    ensures
        regions_ordered(entries@) && usable_total(entries@, kernel_start, kernel_size) <= u64::MAX
            ==> total == Some(usable_total(entries@, kernel_start, kernel_size) as u64),
        !regions_ordered(entries@) || usable_total(entries@, kernel_start, kernel_size) > u64::MAX
            ==> total is None,
{
    let mut sum: u128 = 0;
    let mut i: usize = 0;
    proof {
        assert(entries@.take(0) =~= Seq::<MemoryMapEntry>::empty());
    }
    while i < entries.len()
        invariant
            i <= entries.len(),
            sum == usable_total(entries@.take(i as int), kernel_start, kernel_size),
            sum <= i * u64::MAX,
            forall|j: int|
                0 <= j < i && usable_type((#[trigger] entries@[j]).uefi_type) ==> entries@[j].start
                    <= entries@[j].end,
        decreases entries.len() - i,
    {
        let entry = entries[i];
        proof {
            assert(entries@.take(i + 1).drop_last() =~= entries@.take(i as int));
        }
        if is_cool(&entry) {
            if entry.end < entry.start {
                return None;
            }
            sum = sum + usable_bytes_of(&entry, kernel_start, kernel_size) as u128;
        }
        i += 1;
    }
    proof {
        assert(entries@.take(i as int) =~= entries@);
    }
    if sum > u64::MAX as u128 {
        None
    } else {
        Some(sum as u64)
    }
}

/// A region of a type that is not usable counts for nothing, wherever it
/// lies; and so does a region of any type that lies within the kernel's own
/// memory.
pub proof fn lemma_excluded_region(entry: MemoryMapEntry, kernel_start: u64, kernel_size: u64)
    ensures
        !usable_type(entry.uefi_type) ==> usable_bytes(entry, kernel_start, kernel_size) == 0,
        kernel_start <= entry.start <= entry.end <= kernel_start + kernel_size ==> usable_bytes(
            entry,
            kernel_start,
            kernel_size,
        ) == 0,
{
}

/// The total does not change when a region that counts for nothing is taken
/// out of the map.
pub proof fn lemma_total_without(
    entries: Seq<MemoryMapEntry>,
    i: int,
    kernel_start: u64,
    kernel_size: u64,
)
    requires
        0 <= i < entries.len(),
        usable_bytes(entries[i], kernel_start, kernel_size) == 0,
    ensures
        usable_total(entries.remove(i), kernel_start, kernel_size) == usable_total(
            entries,
            kernel_start,
            kernel_size,
        ),
    decreases entries.len(),
{
    if i == entries.len() - 1 {
        assert(entries.remove(i) =~= entries.drop_last());
    } else {
        lemma_total_without(entries.drop_last(), i, kernel_start, kernel_size);
        assert(entries.remove(i).drop_last() =~= entries.drop_last().remove(i));
        assert(entries.remove(i).last() == entries.last());
    }
}

/// A usable region that shares no byte with the kernel's own memory counts
/// with its whole size, and one that shares some counts with the rest.
pub proof fn lemma_usable_region(entry: MemoryMapEntry, kernel_start: u64, kernel_size: u64)
    requires
        usable_type(entry.uefi_type),
        entry.start <= entry.end,
    ensures
        0 <= usable_bytes(entry, kernel_start, kernel_size) <= entry.end - entry.start,
        entry.end <= kernel_start || kernel_start + kernel_size <= entry.start ==> usable_bytes(
            entry,
            kernel_start,
            kernel_size,
        ) == entry.end - entry.start,
{
}

} // verus!
