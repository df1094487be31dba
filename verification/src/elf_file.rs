//! What the `elf` crate reads out of the bytes of an executable image.
//!
//! The loader does not decode the file format itself. Each function here asks
//! the `elf` crate for one table of the image and hands it on as plain
//! values. What the crate returns for given bytes is not spelled out: it has
//! a name, and the loader's contracts are stated over these names.

use vstd::prelude::*;
use elf::endian::AnyEndian;
use elf::ElfBytes;
use crate::image::{ElfClass, FileHeader, RelocationRecord, Segment};

verus! {

/// The file header that the `elf` crate parses from `bytes`, `None` where it
/// rejects them.
pub uninterp spec fn elf_header(bytes: Seq<u8>) -> Option<FileHeader>;

/// The program headers that the `elf` crate finds in `bytes`, in file order;
/// `None` where it rejects the bytes or finds no program header table.
pub uninterp spec fn elf_segments(bytes: Seq<u8>) -> Option<Seq<Segment>>;

/// The types of the section headers that the `elf` crate finds in `bytes`,
/// in file order; `None` where it rejects the bytes or finds no section
/// header table.
pub uninterp spec fn elf_section_kinds(bytes: Seq<u8>) -> Option<Seq<u32>>;

/// The records that the `elf` crate reads from section `index` of `bytes`
/// taken as a table of relocations with addends; `None` where it refuses.
pub uninterp spec fn elf_section_relocations(bytes: Seq<u8>, index: int) -> Option<
    Seq<RelocationRecord>,
>;

/// Calls `ElfBytes::<AnyEndian>::minimal_parse` and copies the class, the
/// machine and the entry address out of the header it returns. Not proved:
/// that the result is the value named `elf_header`, that is, that the same
/// bytes always parse to the same header.
#[verifier::external_body]
pub(crate) fn read_header(bytes: &[u8]) -> (out: Option<FileHeader>)
    ensures
        out == elf_header(bytes@),
{
    let file = ElfBytes::<AnyEndian>::minimal_parse(bytes).ok()?;
    let class = match file.ehdr.class {
        elf::file::Class::ELF32 => ElfClass::Elf32,
        elf::file::Class::ELF64 => ElfClass::Elf64,
    };
    Some(FileHeader { class, machine: file.ehdr.e_machine, entry: file.ehdr.e_entry })
}

/// Calls `ElfBytes::segments` on the parsed image and copies five fields of
/// every program header that its table yields. Not proved: that the result is
/// the value named `elf_segments`.
#[verifier::external_body]
pub(crate) fn read_segments(bytes: &[u8]) -> (out: Option<Vec<Segment>>)
    ensures
        match out {
            Some(segments) => elf_segments(bytes@) == Some(segments@),
            None => elf_segments(bytes@) is None,
        },
{
    let table = ElfBytes::<AnyEndian>::minimal_parse(bytes).ok()?.segments()?;
    Some(table.iter().map(|p| Segment {
        kind: p.p_type,
        file_offset: p.p_offset,
        file_size: p.p_filesz,
        virtual_address: p.p_vaddr,
        virtual_size: p.p_memsz,
    }).collect())
}

/// Calls `ElfBytes::section_headers` on the parsed image and copies the type
/// of every section header that its table yields. Not proved: that the result
/// is the value named `elf_section_kinds`.
#[verifier::external_body]
pub(crate) fn read_section_kinds(bytes: &[u8]) -> (out: Option<Vec<u32>>)
    ensures
        match out {
            Some(kinds) => elf_section_kinds(bytes@) == Some(kinds@),
            None => elf_section_kinds(bytes@) is None,
        },
{
    let table = ElfBytes::<AnyEndian>::minimal_parse(bytes).ok()?.section_headers()?;
    Some(table.iter().map(|s| s.sh_type).collect())
}

/// Calls `ElfBytes::section_data_as_relas` on the section header at `index`
/// and copies three fields of every record that the iterator yields. Not
/// proved: that the result is the value named `elf_section_relocations`.
#[verifier::external_body]
pub(crate) fn read_section_relocations(bytes: &[u8], index: usize) -> (out: Option<
    Vec<RelocationRecord>,
>)
    ensures
        match out {
            Some(records) => elf_section_relocations(bytes@, index as int) == Some(records@),
            None => elf_section_relocations(bytes@, index as int) is None,
        },
{
    let file = ElfBytes::<AnyEndian>::minimal_parse(bytes).ok()?;
    let header = file.section_headers()?.get(index).ok()?;
    let relas = file.section_data_as_relas(&header).ok()?;
    Some(relas.map(|r| RelocationRecord {
        kind: r.r_type,
        target_offset: r.r_offset,
        addend: r.r_addend,
    }).collect())
}

} // verus!
