//! From the bytes of an executable image to an [`ImageDescriptor`].

use vstd::prelude::*;
use crate::elf_file::{
    elf_header, elf_section_kinds, elf_section_relocations, elf_segments, read_header,
    read_section_kinds, read_section_relocations, read_segments,
};
use crate::error::LoadError;
use crate::image::{
    ElfClass, FileHeader, ImageDescriptor, ImageModel, RelocationRecord, Segment, EM_X86_64,
    PT_LOAD, SHT_REL, SHT_RELA,
};

verus! {

/// Whether the image is a 64-bit image for the machine that the loader boots.
pub open spec fn supported(header: FileHeader) -> bool {
    header.class == ElfClass::Elf64 && header.machine == EM_X86_64
}

/// The loadable segments among `segments`, in the same order.
pub open spec fn loadable(segments: Seq<Segment>) -> Seq<Segment> {
    segments.filter(|s: Segment| s.is_loadable())
}

/// Whether every loadable segment among `segments` fits a file of `file_len`
/// bytes.
pub open spec fn loadable_fit(segments: Seq<Segment>, file_len: nat) -> bool {
    forall|i: int|
        0 <= i < segments.len() && (#[trigger] segments[i]).is_loadable() ==> segments[i].fits(
            file_len,
        )
}

/// The relocations of an image whose sections have the types `kinds`: the
/// records of every section with explicit addends, section after section in
/// file order. A section that cannot be read as such a table makes the image
/// malformed.
pub open spec fn relocations_of(bytes: Seq<u8>, kinds: Seq<u32>) -> Result<
    Seq<RelocationRecord>,
    LoadError,
>
    decreases kinds.len(),
{
    if kinds.len() == 0 {
        Ok(Seq::empty())
    } else {
        match relocations_of(bytes, kinds.drop_last()) {
            Err(e) => Err(e),
            Ok(before) => if kinds.last() != SHT_RELA {
                Ok(before)
            } else {
                match elf_section_relocations(bytes, kinds.len() - 1) {
                    None => Err(LoadError::MalformedImage),
                    Some(records) => Ok(before + records),
                }
            },
        }
    }
}

/// What parsing `bytes` gives. The first of these that holds decides: bytes
/// without a readable header are malformed; an image of another word size or
/// machine is unsupported; an image without a program header table or
/// without a section header table is malformed; one with a relocation
/// section without addends is unsupported; a loadable segment that does not
/// fit the file makes the image malformed, and so does an unreadable
/// relocation section.
pub open spec fn parsed(bytes: Seq<u8>) -> Result<ImageModel, LoadError> {
    match (elf_header(bytes), elf_segments(bytes), elf_section_kinds(bytes)) {
        (None, _, _) => Err(LoadError::MalformedImage),
        (Some(header), segments, kinds) => if !supported(header) {
            Err(LoadError::UnsupportedImage)
        } else {
            match (segments, kinds) {
                (Some(segments), Some(kinds)) => if kinds.contains(SHT_REL) {
                    Err(LoadError::UnsupportedRelocationFormat)
                } else if !loadable_fit(segments, bytes.len()) {
                    Err(LoadError::MalformedImage)
                } else {
                    match relocations_of(bytes, kinds) {
                        Err(e) => Err(e),
                        Ok(relocations) => Ok(
                            ImageModel {
                                entry: header.entry,
                                segments: loadable(segments),
                                relocations,
                            },
                        ),
                    }
                },
                _ => Err(LoadError::MalformedImage),
            }
        },
    }
}

/// Accepts the header of a 64-bit image for the supported machine.
pub fn check_header(header: &FileHeader) -> (r: Result<(), LoadError>)
    ensures
        supported(*header) ==> r == Ok::<(), LoadError>(()),
        !supported(*header) ==> r == Err::<(), LoadError>(LoadError::UnsupportedImage),
{
    match header.class {
        ElfClass::Elf64 => if header.machine == EM_X86_64 {
            Ok(())
        } else {
            Err(LoadError::UnsupportedImage)
        },
        ElfClass::Elf32 => Err(LoadError::UnsupportedImage),
    }
}

/// Refuses an image that has a relocation section without addends.
pub fn check_section_kinds(kinds: &Vec<u32>) -> (r: Result<(), LoadError>)
    ensures
        kinds@.contains(SHT_REL) ==> r == Err::<(), LoadError>(
            LoadError::UnsupportedRelocationFormat,
        ),
        !kinds@.contains(SHT_REL) ==> r == Ok::<(), LoadError>(()),
{
    let mut i: usize = 0;
    while i < kinds.len()
        invariant
            i <= kinds.len(),
            forall|j: int| 0 <= j < i ==> kinds@[j] != SHT_REL,
        decreases kinds.len() - i,
    {
        if kinds[i] == SHT_REL {
            return Err(LoadError::UnsupportedRelocationFormat);
        }
        i += 1;
    }
    Ok(())
}

/// Whether `segment` fits a file of `file_len` bytes.
pub fn segment_fits(segment: &Segment, file_len: usize) -> (fits: bool)
    ensures
        fits == segment.fits(file_len as nat),
{
    segment.file_size <= u64::MAX - segment.file_offset && segment.file_offset
        + segment.file_size <= file_len as u64 && segment.file_size <= segment.virtual_size
        && segment.virtual_size <= u64::MAX - segment.virtual_address
}

/// Keeps the loadable segments, in order, and checks each against the file's
/// length.
pub fn loadable_segments(segments: &Vec<Segment>, file_len: usize) -> (r: Result<
    Vec<Segment>,
    LoadError,
>)
    ensures
        match r {
            Ok(kept) => {
                &&& loadable_fit(segments@, file_len as nat)
                &&& kept@ == loadable(segments@)
                &&& forall|j: int|
                    0 <= j < kept@.len() ==> (#[trigger] kept@[j]).is_loadable() && kept@[j].fits(
                        file_len as nat,
                    )
            },
            Err(e) => !loadable_fit(segments@, file_len as nat) && e == LoadError::MalformedImage,
        },
{
    let mut kept: Vec<Segment> = Vec::new();
    let mut i: usize = 0;
    proof {
        reveal(Seq::filter);
        assert(segments@.take(0) =~= Seq::<Segment>::empty());
    }
    while i < segments.len()
        invariant
            i <= segments.len(),
            kept@ == loadable(segments@.take(i as int)),
            forall|j: int|
                0 <= j < kept@.len() ==> (#[trigger] kept@[j]).is_loadable() && kept@[j].fits(
                    file_len as nat,
                ),
            forall|j: int|
                0 <= j < i && (#[trigger] segments@[j]).is_loadable() ==> segments@[j].fits(
                    file_len as nat,
                ),
        decreases segments.len() - i,
    {
        let segment = segments[i];
        proof {
            reveal(Seq::filter);
            assert(segments@.take(i + 1).drop_last() =~= segments@.take(i as int));
        }
        if segment.kind == PT_LOAD {
            if !segment_fits(&segment, file_len) {
                return Err(LoadError::MalformedImage);
            }
            kept.push(segment);
        }
        i += 1;
    }
    proof {
        assert(segments@.take(i as int) =~= segments@);
    }
    Ok(kept)
}

/// Takes in what reading one relocation section gave: its records are added
/// behind those gathered so far, and a section that could not be read makes
/// the image malformed.
pub fn append_section(
    relocations: &mut Vec<RelocationRecord>,
    table: Option<Vec<RelocationRecord>>,
) -> (r: Result<(), LoadError>)
    ensures
        match table {
            Some(records) => r == Ok::<(), LoadError>(()) && final(relocations)@ == old(
                relocations,
            )@ + records@,
            None => r == Err::<(), LoadError>(LoadError::MalformedImage) && final(relocations)@
                == old(relocations)@,
        },
{
    match table {
        Some(mut records) => {
            relocations.append(&mut records);
            Ok(())
        },
        None => Err(LoadError::MalformedImage),
    }
}

/// Once a prefix of the sections has an unreadable relocation section, the
/// whole image has.
proof fn lemma_error_persists(bytes: Seq<u8>, kinds: Seq<u32>, n: int)
    requires
        0 <= n <= kinds.len(),
        relocations_of(bytes, kinds.take(n)) is Err,
    ensures
        relocations_of(bytes, kinds) == relocations_of(bytes, kinds.take(n)),
    decreases kinds.len() - n,
{
    if n == kinds.len() {
        assert(kinds.take(n) =~= kinds);
    } else {
        assert(kinds.drop_last().take(n) =~= kinds.take(n));
        lemma_error_persists(bytes, kinds.drop_last(), n);
    }
}

/// Reads the relocations of every section with explicit addends.
fn read_relocations(bytes: &[u8], kinds: &Vec<u32>) -> (r: Result<
    Vec<RelocationRecord>,
    LoadError,
>)
    ensures
        match r {
            Ok(relocations) => relocations_of(bytes@, kinds@) == Ok::<
                Seq<RelocationRecord>,
                LoadError,
            >(relocations@),
            Err(e) => relocations_of(bytes@, kinds@) == Err::<Seq<RelocationRecord>, LoadError>(e),
        },
{
    let mut relocations: Vec<RelocationRecord> = Vec::new();
    let mut i: usize = 0;
    proof {
        assert(kinds@.take(0) =~= Seq::<u32>::empty());
    }
    while i < kinds.len()
        invariant
            i <= kinds.len(),
            relocations_of(bytes@, kinds@.take(i as int)) == Ok::<
                Seq<RelocationRecord>,
                LoadError,
            >(relocations@),
        decreases kinds.len() - i,
    {
        proof {
            assert(kinds@.take(i + 1).drop_last() =~= kinds@.take(i as int));
        }
        if kinds[i] == SHT_RELA {
            let table = read_section_relocations(bytes, i);
            match append_section(&mut relocations, table) {
                Ok(()) => {},
                Err(e) => {
                    proof {
                        lemma_error_persists(bytes@, kinds@, i + 1);
                    }
                    return Err(e);
                },
            }
        }
        i += 1;
    }
    proof {
        assert(kinds@.take(i as int) =~= kinds@);
    }
    Ok(relocations)
}

/// Parses the bytes of a kernel image: checks the header, keeps the loadable
/// segments and gathers the relocations.
pub fn parse_image(bytes: &[u8]) -> (r: Result<ImageDescriptor, LoadError>)
    ensures
        match r {
            Ok(image) => parsed(bytes@) == Ok::<ImageModel, LoadError>(image@) && image@.wf(
                bytes@.len(),
            ),
            Err(e) => parsed(bytes@) == Err::<ImageModel, LoadError>(e),
        },
{
    let header = match read_header(bytes) {
        Some(header) => header,
        None => {
            return Err(LoadError::MalformedImage);
        },
    };
    check_header(&header)?;
    let all_segments = match read_segments(bytes) {
        Some(segments) => segments,
        None => {
            return Err(LoadError::MalformedImage);
        },
    };
    let kinds = match read_section_kinds(bytes) {
        Some(kinds) => kinds,
        None => {
            return Err(LoadError::MalformedImage);
        },
    };
    check_section_kinds(&kinds)?;
    let segments = loadable_segments(&all_segments, bytes.len())?;
    let relocations = read_relocations(bytes, &kinds)?;
    Ok(ImageDescriptor { entry: header.entry, segments, relocations })
}

} // verus!
