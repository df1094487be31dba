//! The kernel's bump allocator: a fixed arena with a watermark.
//!
//! Memory is handed out from the top of the arena downwards. The watermark
//! only ever falls, and nothing is ever taken back.

use vstd::prelude::*;
use vstd::arithmetic::power2::is_pow2;

verus! {

/// The size of the arena in bytes.
pub const ARENA_SIZE: usize = 128 * 1024;

/// The largest alignment that the arena serves, which is the alignment of
/// the arena itself.
pub const MAX_SUPPORTED_ALIGN: usize = 4096;

/// The largest multiple of `align` that is not above `value`.
pub open spec fn round_down(value: int, align: int) -> int {
    value - value % align
}

/// The state of the allocator: the watermark, as an offset into the arena.
/// The bytes below it are free, and those from it on are handed out.
#[derive(Debug, PartialEq, Eq, Structural)]
pub struct SimpleAllocator {
    pub remaining: usize,
}

impl SimpleAllocator {
    /// The watermark lies inside the arena.
    pub open spec fn wf(self) -> bool {
        self.remaining <= ARENA_SIZE
    }

    /// Where a block of `size` bytes aligned to `align` is placed: `size`
    /// bytes below the watermark, rounded down to the alignment. `None`
    /// where the alignment is more than the arena serves, or where fewer
    /// than `size` bytes are free.
    pub open spec fn placement(self, size: usize, align: usize) -> Option<usize> {
        if align > MAX_SUPPORTED_ALIGN || size > self.remaining {
            None
        } else {
            Some(round_down(self.remaining - size, align as int) as usize)
        }
    }

    /// An allocator whose whole arena is free.
    pub fn new() -> (allocator: SimpleAllocator)
        ensures
            allocator.remaining == ARENA_SIZE,
            allocator.wf(),
    {
        SimpleAllocator { remaining: ARENA_SIZE }
    }

    /// Hands out `size` bytes aligned to `align`, a power of two, and returns
    /// the block's offset into the arena, to which the watermark falls. Where
    /// the block cannot be placed nothing changes.
    pub fn allocate(&mut self, size: usize, align: usize) -> (block: Option<usize>)
        requires
            is_pow2(align as int),
        ensures
            block == old(self).placement(size, align),
            final(self).remaining <= old(self).remaining,
            old(self).wf() ==> final(self).wf(),
            match block {
                Some(offset) => {
                    &&& final(self).remaining == offset
                    &&& offset % align == 0
                    &&& offset + size <= old(self).remaining
                },
                None => final(self).remaining == old(self).remaining,
            },
    {
        if align > MAX_SUPPORTED_ALIGN {
            return None;
        }
        if size > self.remaining {
            return None;
        }
        let below: usize = self.remaining - size;
        proof {
            lemma_small_power_of_two(align);
            lemma_mask_rounds_down(below, align);
        }
        let offset: usize = below & !(align - 1);
        self.remaining = offset;
        Some(offset)
    }

    /// Takes a block back. The arena never reuses memory, so nothing changes.
    pub fn dealloc(&mut self, offset: usize, size: usize, align: usize)
        ensures
            *final(self) == *old(self),
    {
    }
}

/// The powers of two up to the largest supported alignment.
spec fn small_power_of_two(align: usize) -> bool {
    align == 1 || align == 2 || align == 4 || align == 8 || align == 16 || align == 32 || align
        == 64 || align == 128 || align == 256 || align == 512 || align == 1024 || align == 2048
        || align == 4096
}

/// A power of two that the arena serves is one of thirteen numbers.
proof fn lemma_small_power_of_two(align: usize)
    requires
        is_pow2(align as int),
        align <= MAX_SUPPORTED_ALIGN,
    ensures
        small_power_of_two(align),
{
    reveal_with_fuel(is_pow2, 14);
}

/// Clearing the bits below a power of two rounds down to a multiple of it.
proof fn lemma_mask_rounds_down(value: usize, align: usize)
    requires
        small_power_of_two(align),
    ensures
        value & !((align - 1) as usize) == round_down(value as int, align as int),
        round_down(value as int, align as int) % (align as int) == 0,
        0 <= round_down(value as int, align as int) <= value,
{
    if align == 1 {
        assert(value & !0usize == value - value % 1) by (bit_vector);
    } else if align == 2 {
        assert(value & !1usize == value - value % 2) by (bit_vector);
    } else if align == 4 {
        assert(value & !3usize == value - value % 4) by (bit_vector);
    } else if align == 8 {
        assert(value & !7usize == value - value % 8) by (bit_vector);
    } else if align == 16 {
        assert(value & !15usize == value - value % 16) by (bit_vector);
    } else if align == 32 {
        assert(value & !31usize == value - value % 32) by (bit_vector);
    } else if align == 64 {
        assert(value & !63usize == value - value % 64) by (bit_vector);
    } else if align == 128 {
        assert(value & !127usize == value - value % 128) by (bit_vector);
    } else if align == 256 {
        assert(value & !255usize == value - value % 256) by (bit_vector);
    } else if align == 512 {
        assert(value & !511usize == value - value % 512) by (bit_vector);
    } else if align == 1024 {
        assert(value & !1023usize == value - value % 1024) by (bit_vector);
    } else if align == 2048 {
        assert(value & !2047usize == value - value % 2048) by (bit_vector);
    } else if align == 4096 {
        assert(value & !4095usize == value - value % 4096) by (bit_vector);
    }
}

} // verus!
