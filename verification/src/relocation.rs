//! Patching the base-relative relocations of a loaded image.

use vstd::prelude::*;
use vstd::bytes::{
    lemma_auto_spec_u64_to_from_le_bytes, spec_u64_from_le_bytes, spec_u64_to_le_bytes,
    u64_from_le_bytes, u64_to_le_bytes,
};
use vstd::slice::slice_subrange;
use crate::error::LoadError;
use crate::image::{RelocationRecord, R_X86_64_RELATIVE};

verus! {

/// The word that a base-relative relocation writes: the load base plus the
/// addend, as a 64-bit address.
pub open spec fn patch_value(base: u64, addend: i64) -> u64 {
    ((base + addend) % 0x1_0000_0000_0000_0000) as u64
}

/// What is wrong with `record` for a buffer of `len` bytes, if anything: a
/// kind other than the base-relative one is unsupported, and a target whose
/// eight bytes do not lie inside the buffer makes the image malformed.
pub open spec fn record_error(record: RelocationRecord, len: nat) -> Option<LoadError> {
    if record.kind != R_X86_64_RELATIVE {
        Some(LoadError::UnsupportedRelocation)
    } else if record.target_offset + 8 > len {
        Some(LoadError::MalformedImage)
    } else {
        None
    }
}

/// The error of the first record among `records` that has one.
pub open spec fn relocation_error(records: Seq<RelocationRecord>, len: nat) -> Option<LoadError>
    decreases records.len(),
{
    if records.len() == 0 {
        None
    } else {
        match relocation_error(records.drop_last(), len) {
            Some(e) => Some(e),
            None => record_error(records.last(), len),
        }
    }
}

/// `memory` after `record` was applied at load base `base`: the eight bytes
/// at the target hold the patch value, lowest byte first.
pub open spec fn patched(memory: Seq<u8>, base: u64, record: RelocationRecord) -> Seq<u8> {
    let word = spec_u64_to_le_bytes(patch_value(base, record.addend));
    Seq::new(
        memory.len(),
        |i: int|
            if record.target_offset <= i < record.target_offset + 8 {
                word[i - record.target_offset]
            } else {
                memory[i]
            },
    )
}

/// `memory` after every record among `records` was applied, in order.
pub open spec fn relocated(memory: Seq<u8>, base: u64, records: Seq<RelocationRecord>) -> Seq<u8>
    decreases records.len(),
{
    if records.len() == 0 {
        memory
    } else {
        patched(relocated(memory, base, records.drop_last()), base, records.last())
    }
}

/// Whether the targets of two records share no byte.
pub open spec fn targets_apart(a: RelocationRecord, b: RelocationRecord) -> bool {
    a.target_offset + 8 <= b.target_offset || b.target_offset + 8 <= a.target_offset
}

/// Computes the word that a base-relative relocation writes.
pub fn compute_patch_value(base: u64, addend: i64) -> (value: u64)
    ensures
        value == patch_value(base, addend),
{
    let sum: i128 = base as i128 + addend as i128;
    let wrapped: i128 = if sum < 0 {
        sum + 0x1_0000_0000_0000_0000
    } else if sum > 0xffff_ffff_ffff_ffff {
        sum - 0x1_0000_0000_0000_0000
    } else {
        sum
    };
    wrapped as u64
}

/// Checks one record against a buffer of `len` bytes.
pub fn check_relocation(record: &RelocationRecord, len: usize) -> (r: Result<(), LoadError>)
    ensures
        match record_error(*record, len as nat) {
            Some(e) => r == Err::<(), LoadError>(e),
            None => r == Ok::<(), LoadError>(()),
        },
{
    if record.kind != R_X86_64_RELATIVE {
        Err(LoadError::UnsupportedRelocation)
    } else if len < 8 || record.target_offset > (len - 8) as u64 {
        Err(LoadError::MalformedImage)
    } else {
        Ok(())
    }
}

/// Once a prefix of the records has an error, the whole list has that error.
proof fn lemma_error_persists(records: Seq<RelocationRecord>, len: nat, n: int)
    requires
        0 <= n <= records.len(),
        relocation_error(records.take(n), len) is Some,
    ensures
        relocation_error(records, len) == relocation_error(records.take(n), len),
    decreases records.len() - n,
{
    if n == records.len() {
        assert(records.take(n) =~= records);
    } else {
        assert(records.drop_last().take(n) =~= records.take(n));
        lemma_error_persists(records.drop_last(), len, n);
    }
}

/// A list without an error has none in any prefix, nor in any record.
proof fn lemma_no_error(records: Seq<RelocationRecord>, len: nat, n: int)
    requires
        0 <= n <= records.len(),
        relocation_error(records, len) is None,
    ensures
        relocation_error(records.take(n), len) is None,
        n < records.len() ==> record_error(records[n], len) is None,
    decreases records.len() - n,
{
    if n == records.len() {
        assert(records.take(n) =~= records);
    } else {
        assert(records.drop_last().take(n) =~= records.take(n));
        if n < records.len() - 1 {
            lemma_no_error(records.drop_last(), len, n);
        }
    }
}

/// Checks every record against a buffer of `len` bytes, and reports the
/// error of the first record that has one.
pub fn check_relocations(records: &Vec<RelocationRecord>, len: usize) -> (r: Result<
    (),
    LoadError,
>)
    ensures
        match relocation_error(records@, len as nat) {
            Some(e) => r == Err::<(), LoadError>(e),
            None => r == Ok::<(), LoadError>(()),
        },
{
    let mut i: usize = 0;
    proof {
        assert(records@.take(0) =~= Seq::<RelocationRecord>::empty());
    }
    while i < records.len()
        invariant
            i <= records.len(),
            relocation_error(records@.take(i as int), len as nat) is None,
        decreases records.len() - i,
    {
        proof {
            assert(records@.take(i + 1).drop_last() =~= records@.take(i as int));
        }
        match check_relocation(&records[i], len) {
            Ok(()) => {},
            Err(e) => {
                proof {
                    lemma_error_persists(records@, len as nat, i + 1);
                }
                return Err(e);
            },
        }
        i += 1;
    }
    proof {
        assert(records@.take(i as int) =~= records@);
    }
    Ok(())
}

/// Applies one record: writes the patch value at its target, lowest byte
/// first. A record with an error leaves `memory` as it was.
pub fn apply_relocation(memory: &mut Vec<u8>, base: u64, record: &RelocationRecord) -> (r:
    Result<(), LoadError>)
    ensures
        match record_error(*record, old(memory)@.len()) {
            Some(e) => r == Err::<(), LoadError>(e) && final(memory)@ == old(memory)@,
            None => r == Ok::<(), LoadError>(()) && final(memory)@ == patched(
                old(memory)@,
                base,
                *record,
            ),
        },
{
    match check_relocation(record, memory.len()) {
        Ok(()) => {},
        Err(e) => {
            return Err(e);
        },
    }
    let word = u64_to_le_bytes(compute_patch_value(base, record.addend));
    let target: usize = record.target_offset as usize;
    let mut k: usize = 0;
    while k < 8
        invariant
            k <= 8,
            word@ == spec_u64_to_le_bytes(patch_value(base, record.addend)),
            word@.len() == 8,
            target == record.target_offset,
            target + 8 <= memory@.len() <= usize::MAX,
            memory@.len() == old(memory)@.len(),
            forall|i: int|
                0 <= i < memory@.len() ==> memory@[i] == if target <= i < target + k {
                    word@[i - target]
                } else {
                    old(memory)@[i]
                },
        decreases 8 - k,
    {
        memory.set(target + k, word[k]);
        k += 1;
    }
    assert(memory@ =~= patched(old(memory)@, base, *record));
    Ok(())
}

/// Applies every record, in order, or none: where any record has an error,
/// the first such error is returned and `memory` is left as it was.
pub fn apply_relocations(memory: &mut Vec<u8>, base: u64, records: &Vec<RelocationRecord>) -> (r:
    Result<(), LoadError>)
    ensures
        match relocation_error(records@, old(memory)@.len()) {
            Some(e) => r == Err::<(), LoadError>(e) && final(memory)@ == old(memory)@,
            None => r == Ok::<(), LoadError>(()) && final(memory)@ == relocated(
                old(memory)@,
                base,
                records@,
            ),
        },
{
    match check_relocations(records, memory.len()) {
        Ok(()) => {},
        Err(e) => {
            return Err(e);
        },
    }
    let mut i: usize = 0;
    proof {
        assert(records@.take(0) =~= Seq::<RelocationRecord>::empty());
    }
    while i < records.len()
        invariant
            i <= records.len(),
            relocation_error(records@, old(memory)@.len()) is None,
            memory@.len() == old(memory)@.len(),
            memory@ == relocated(old(memory)@, base, records@.take(i as int)),
        decreases records.len() - i,
    {
        proof {
            assert(records@.take(i + 1).drop_last() =~= records@.take(i as int));
            lemma_no_error(records@, old(memory)@.len(), i as int);
        }
        let applied = apply_relocation(memory, base, &records[i]);
        assert(applied is Ok);
        i += 1;
    }
    proof {
        assert(records@.take(i as int) =~= records@);
    }
    Ok(())
}

/// Reads the 64-bit word that stands at `offset`, lowest byte first; `None`
/// where its eight bytes do not lie inside `memory`.
pub fn read_word(memory: &[u8], offset: usize) -> (word: Option<u64>)
    ensures
        offset + 8 <= memory@.len() ==> word == Some(
            spec_u64_from_le_bytes(memory@.subrange(offset as int, offset + 8)),
        ),
        offset + 8 > memory@.len() ==> word is None,
{
    if memory.len() < 8 || offset > memory.len() - 8 {
        None
    } else {
        Some(u64_from_le_bytes(slice_subrange(memory, offset, offset + 8)))
    }
}

/// What [`relocation_error`] finds: nothing where every record is in order,
/// and else the error of the record in front of which every record is in
/// order.
pub proof fn lemma_first_error(records: Seq<RelocationRecord>, len: nat)
    ensures
        match relocation_error(records, len) {
            None => forall|i: int|
                0 <= i < records.len() ==> record_error(#[trigger] records[i], len) is None,
            Some(e) => exists|i: int|
                {
                    &&& 0 <= i < records.len()
                    &&& record_error(#[trigger] records[i], len) == Some(e)
                    &&& forall|j: int| 0 <= j < i ==> record_error(#[trigger] records[j], len) is None
                },
        },
    decreases records.len(),
{
    if records.len() > 0 {
        let before = records.drop_last();
        lemma_first_error(before, len);
        match relocation_error(before, len) {
            None => {
                assert forall|i: int| 0 <= i < records.len() - 1 implies record_error(
                    #[trigger] records[i],
                    len,
                ) is None by {
                    assert(before[i] == records[i]);
                }
                if record_error(records.last(), len) is Some {
                    let i = records.len() - 1;
                    assert(record_error(records[i], len) == relocation_error(records, len));
                }
            },
            Some(e) => {
                let i = choose|i: int|
                    {
                        &&& 0 <= i < before.len()
                        &&& record_error(#[trigger] before[i], len) == Some(e)
                        &&& forall|j: int|
                            0 <= j < i ==> record_error(#[trigger] before[j], len) is None
                    };
                assert(records[i] == before[i]);
                assert forall|j: int| 0 <= j < i implies record_error(
                    #[trigger] records[j],
                    len,
                ) is None by {
                    assert(before[j] == records[j]);
                }
            },
        }
    }
}

/// A list that holds a record of an unsupported kind has an error, so that
/// applying the list fails and applies nothing: neither the records in front
/// of that record nor those behind it.
pub proof fn lemma_unsupported_record_fails(records: Seq<RelocationRecord>, len: nat, i: int)
    requires
        0 <= i < records.len(),
        records[i].kind != R_X86_64_RELATIVE,
    ensures
        relocation_error(records, len) is Some,
{
    lemma_first_error(records, len);
}

/// Relocating keeps the buffer's size.
pub proof fn lemma_relocated_len(memory: Seq<u8>, base: u64, records: Seq<RelocationRecord>)
    ensures
        relocated(memory, base, records).len() == memory.len(),
    decreases records.len(),
{
    if records.len() > 0 {
        lemma_relocated_len(memory, base, records.drop_last());
    }
}

/// After a supported record was applied, the word read back at its target is
/// the load base plus the addend.
pub proof fn lemma_patch_reads_back(memory: Seq<u8>, base: u64, record: RelocationRecord)
    requires
        record_error(record, memory.len()) is None,
    ensures
        spec_u64_from_le_bytes(
            patched(memory, base, record).subrange(
                record.target_offset as int,
                record.target_offset + 8,
            ),
        ) == patch_value(base, record.addend),
        0 <= base + record.addend <= u64::MAX ==> patch_value(base, record.addend) == base
            + record.addend,
{
    lemma_auto_spec_u64_to_from_le_bytes();
    let word = spec_u64_to_le_bytes(patch_value(base, record.addend));
    assert(patched(memory, base, record).subrange(
        record.target_offset as int,
        record.target_offset + 8,
    ) =~= word);
}

/// After a list of supported records was applied, the word read back at the
/// target of record `i` is the load base plus its addend, provided that no
/// later record patches any of the same bytes.
pub proof fn lemma_relocated_reads_back(
    memory: Seq<u8>,
    base: u64,
    records: Seq<RelocationRecord>,
    i: int,
)
    requires
        0 <= i < records.len(),
        relocation_error(records, memory.len()) is None,
        forall|j: int| i < j < records.len() ==> targets_apart(records[i], #[trigger] records[j]),
    ensures
        spec_u64_from_le_bytes(
            relocated(memory, base, records).subrange(
                records[i].target_offset as int,
                records[i].target_offset + 8,
            ),
        ) == patch_value(base, records[i].addend),
        0 <= base + records[i].addend <= u64::MAX ==> patch_value(base, records[i].addend) == base
            + records[i].addend,
    decreases records.len(),
{
    let before = records.drop_last();
    let last = records.last();
    let target = records[i].target_offset as int;
    lemma_relocated_len(memory, base, before);
    assert(last == records[records.len() - 1]);
    if i == records.len() - 1 {
        lemma_patch_reads_back(relocated(memory, base, before), base, last);
    } else {
        assert(before[i] == records[i]);
        assert forall|j: int| i < j < before.len() implies targets_apart(
            before[i],
            #[trigger] before[j],
        ) by {
            assert(before[j] == records[j]);
        }
        lemma_relocated_reads_back(memory, base, before, i);
        assert(targets_apart(records[i], records[records.len() - 1]));
        lemma_no_error(records, memory.len(), i);
        assert(relocated(memory, base, records).subrange(target, target + 8) =~= relocated(
            memory,
            base,
            before,
        ).subrange(target, target + 8));
    }
}

} // verus!
