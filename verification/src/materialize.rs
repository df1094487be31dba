//! Copying the loadable segments of an image into its backing buffer.

use vstd::prelude::*;
use crate::image::{Segment, PT_LOAD};

verus! {

/// `memory` after the file bytes of `segment` were written at its virtual
/// address. Nothing else changes: the bytes between the segment's file size
/// and its virtual size stay what they were.
pub open spec fn placed(memory: Seq<u8>, file: Seq<u8>, segment: Segment) -> Seq<u8> {
    Seq::new(
        memory.len(),
        |i: int|
            if segment.virtual_address <= i < segment.virtual_address + segment.file_size {
                file[segment.file_offset + (i - segment.virtual_address)]
            } else {
                memory[i]
            },
    )
}

/// `memory` after every loadable segment among `segments` was placed, one
/// after the other in the order of the list.
pub open spec fn materialized(memory: Seq<u8>, file: Seq<u8>, segments: Seq<Segment>) -> Seq<u8>
    decreases segments.len(),
{
    if segments.len() == 0 {
        memory
    } else {
        let before = materialized(memory, file, segments.drop_last());
        if segments.last().is_loadable() {
            placed(before, file, segments.last())
        } else {
            before
        }
    }
}

/// Whether every loadable segment among `segments` has its bytes inside a
/// file of `file_len` bytes and its place inside a buffer of `memory_len`
/// bytes.
pub open spec fn placeable(segments: Seq<Segment>, file_len: nat, memory_len: nat) -> bool {
    forall|i: int|
        0 <= i < segments.len() && (#[trigger] segments[i]).is_loadable() ==> {
            &&& segments[i].fits(file_len)
            &&& segments[i].virtual_end() <= memory_len
        }
}

/// Whether two segments share no byte of memory.
pub open spec fn apart(a: Segment, b: Segment) -> bool {
    a.virtual_end() <= b.virtual_address || b.virtual_end() <= a.virtual_address
}

/// Whether no two loadable segments among `segments` share a byte of memory.
pub open spec fn non_overlapping(segments: Seq<Segment>) -> bool {
    forall|i: int, j: int|
        0 <= i < j < segments.len() && (#[trigger] segments[i]).is_loadable() && (
        #[trigger] segments[j]).is_loadable() ==> apart(segments[i], segments[j])
}

/// Copies the file bytes of one segment to its place in `memory`.
pub fn place_segment(memory: &mut Vec<u8>, file: &[u8], segment: &Segment)
    requires
        segment.fits(file@.len()),
        segment.virtual_end() <= old(memory)@.len(),
    ensures
        final(memory)@ == placed(old(memory)@, file@, *segment),
{
    assert(file@.len() == file.len() && memory@.len() == memory.len());
    let fstart: usize = segment.file_offset as usize;
    let vstart: usize = segment.virtual_address as usize;
    let count: usize = segment.file_size as usize;
    let mut k: usize = 0;
    while k < count
        invariant
            k <= count,
            count == segment.file_size,
            fstart == segment.file_offset,
            vstart == segment.virtual_address,
            fstart + count <= file@.len() <= usize::MAX,
            vstart + count <= memory@.len() <= usize::MAX,
            memory@.len() == old(memory)@.len(),
            forall|i: int|
                0 <= i < memory@.len() ==> memory@[i] == if vstart <= i < vstart + k {
                    file@[fstart + (i - vstart)]
                } else {
                    old(memory)@[i]
                },
        decreases count - k,
    {
        memory.set(vstart + k, file[fstart + k]);
        k += 1;
    }
    assert(memory@ =~= placed(old(memory)@, file@, *segment));
}

/// Copies every loadable segment among `segments` to its place in `memory`,
/// in the order of the list.
pub fn materialize(memory: &mut Vec<u8>, file: &[u8], segments: &Vec<Segment>)
    requires
        placeable(segments@, file@.len(), old(memory)@.len()),
    ensures
        final(memory)@ == materialized(old(memory)@, file@, segments@),
        final(memory)@.len() == old(memory)@.len(),
{
    let mut i: usize = 0;
    proof {
        assert(segments@.take(0) =~= Seq::<Segment>::empty());
    }
    while i < segments.len()
        invariant
            i <= segments.len(),
            placeable(segments@, file@.len(), old(memory)@.len()),
            memory@.len() == old(memory)@.len(),
            memory@ == materialized(old(memory)@, file@, segments@.take(i as int)),
        decreases segments.len() - i,
    {
        let segment = segments[i];
        proof {
            assert(segments@.take(i + 1).drop_last() =~= segments@.take(i as int));
        }
        if segment.kind == PT_LOAD {
            place_segment(memory, file, &segment);
        }
        i += 1;
    }
    proof {
        assert(segments@.take(i as int) =~= segments@);
    }
}

/// Materializing keeps the buffer's size.
pub proof fn lemma_materialized_len(memory: Seq<u8>, file: Seq<u8>, segments: Seq<Segment>)
    ensures
        materialized(memory, file, segments).len() == memory.len(),
    decreases segments.len(),
{
    if segments.len() > 0 {
        lemma_materialized_len(memory, file, segments.drop_last());
    }
}

/// A byte that lies in no loadable segment is not changed.
pub proof fn lemma_materialized_outside(
    memory: Seq<u8>,
    file: Seq<u8>,
    segments: Seq<Segment>,
    p: int,
)
    requires
        0 <= p < memory.len(),
        forall|i: int|
            0 <= i < segments.len() && (#[trigger] segments[i]).is_loadable() ==> !(
            segments[i].virtual_address <= p < segments[i].virtual_address
                + segments[i].file_size),
    ensures
        materialized(memory, file, segments)[p] == memory[p],
    decreases segments.len(),
{
    if segments.len() > 0 {
        let before = segments.drop_last();
        assert forall|i: int| 0 <= i < before.len() && (#[trigger] before[i]).is_loadable() implies !(
        before[i].virtual_address <= p < before[i].virtual_address + before[i].file_size) by {
            assert(before[i] == segments[i]);
        }
        lemma_materialized_outside(memory, file, before, p);
        lemma_materialized_len(memory, file, before);
        assert(segments.last() == segments[segments.len() - 1]);
    }
}

/// In an image whose loadable segments do not overlap, a byte inside
/// loadable segment `i` is the file's byte where the file has one for it, and
/// is unchanged behind the segment's file size.
pub proof fn lemma_materialized_inside(
    memory: Seq<u8>,
    file: Seq<u8>,
    segments: Seq<Segment>,
    i: int,
    p: int,
)
    requires
        0 <= i < segments.len(),
        segments[i].is_loadable(),
        placeable(segments, file.len(), memory.len()),
        non_overlapping(segments),
        segments[i].virtual_address <= p < segments[i].virtual_end(),
    ensures
        materialized(memory, file, segments)[p] == if p < segments[i].virtual_address
            + segments[i].file_size {
            file[segments[i].file_offset + (p - segments[i].virtual_address)]
        } else {
            memory[p]
        },
    decreases segments.len(),
{
    let before = segments.drop_last();
    let last = segments.last();
    assert(last == segments[segments.len() - 1]);
    lemma_materialized_len(memory, file, before);
    if i == segments.len() - 1 {
        if !(p < last.virtual_address + last.file_size) {
            assert forall|j: int| 0 <= j < before.len() && (#[trigger] before[j]).is_loadable() implies !(
            before[j].virtual_address <= p < before[j].virtual_address + before[j].file_size) by {
                assert(before[j] == segments[j]);
                assert(apart(segments[j], segments[i]));
            }
            lemma_materialized_outside(memory, file, before, p);
        }
    } else {
        assert(before[i] == segments[i]);
        assert forall|j: int| 0 <= j < before.len() && (#[trigger] before[j]).is_loadable() implies {
            &&& before[j].fits(file.len())
            &&& before[j].virtual_end() <= memory.len()
        } by {
            assert(before[j] == segments[j]);
        }
        assert forall|j: int, k: int|
            0 <= j < k < before.len() && (#[trigger] before[j]).is_loadable() && (
            #[trigger] before[k]).is_loadable() implies apart(before[j], before[k]) by {
            assert(before[j] == segments[j]);
            assert(before[k] == segments[k]);
        }
        lemma_materialized_inside(memory, file, before, i, p);
        if last.is_loadable() {
            assert(apart(segments[i], segments[segments.len() - 1]));
        }
    }
}

/// Materializing a well-formed image into a zeroed buffer: every loadable
/// segment's file bytes stand unmodified at its virtual address, and the
/// bytes from its file size up to its virtual size are zero.
pub proof fn lemma_segments_materialized(
    memory: Seq<u8>,
    file: Seq<u8>,
    segments: Seq<Segment>,
    i: int,
)
    requires
        0 <= i < segments.len(),
        segments[i].is_loadable(),
        placeable(segments, file.len(), memory.len()),
        non_overlapping(segments),
        forall|p: int| 0 <= p < memory.len() ==> memory[p] == 0u8,
    ensures
        materialized(memory, file, segments).len() == memory.len(),
        materialized(memory, file, segments).subrange(
            segments[i].virtual_address as int,
            segments[i].virtual_address + segments[i].file_size,
        ) == file.subrange(
            segments[i].file_offset as int,
            segments[i].file_offset + segments[i].file_size,
        ),
        forall|p: int|
            segments[i].virtual_address + segments[i].file_size <= p < segments[i].virtual_end()
                ==> materialized(memory, file, segments)[p] == 0u8,
{
    let result = materialized(memory, file, segments);
    let segment = segments[i];
    lemma_materialized_len(memory, file, segments);
    assert forall|p: int| segment.virtual_address <= p < segment.virtual_end() implies result[p]
        == if p < segment.virtual_address + segment.file_size {
        file[segment.file_offset + (p - segment.virtual_address)]
    } else {
        0u8
    } by {
        lemma_materialized_inside(memory, file, segments, i, p);
    }
    assert(result.subrange(
        segment.virtual_address as int,
        segment.virtual_address + segment.file_size,
    ) =~= file.subrange(segment.file_offset as int, segment.file_offset + segment.file_size));
}

} // verus!
