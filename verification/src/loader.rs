//! From the bytes of a kernel image to a kernel that is ready to run.

use vstd::prelude::*;
use crate::error::LoadError;
use crate::image::{ImageDescriptor, ImageModel};
use crate::layout::{
    allocate_backing, image_extent, lemma_image_extent_is_max, plan_layout, planned, Layout,
    STACK_SIZE,
};
use crate::materialize::{
    lemma_segments_materialized, materialize, materialized, non_overlapping, placeable,
};
use crate::parser::{parse_image, parsed};
use crate::relocation::{
    apply_relocations, check_relocations, lemma_relocated_len, relocated, relocation_error,
};

verus! {

/// A kernel image in memory: its backing buffer, which holds the segments
/// and behind them the stack, and where in it execution starts.
#[derive(Debug)]
pub struct LoadedKernel {
    /// The backing buffer. At handoff it becomes the kernel's own memory.
    pub memory: Vec<u8>,
    /// Where execution starts, counted from the start of the buffer.
    pub entry_offset: usize,
    /// Where the stack region starts, counted from the start of the buffer.
    pub stack_offset: usize,
    /// The size of the stack region.
    pub stack_size: usize,
    /// The address of the buffer, for which the relocations were applied.
    pub load_base: u64,
}

impl LoadedKernel {
    /// The stack region ends the buffer, execution starts in front of it, and
    /// the whole buffer lies in the address space.
    pub open spec fn wf(&self) -> bool {
        &&& self.memory@.len() == self.stack_offset + self.stack_size
        &&& self.entry_offset < self.stack_offset
        &&& self.load_base + self.memory@.len() <= u64::MAX
    }

    /// Whether the kernel is well formed.
    pub fn is_well_formed(&self) -> (ok: bool)
        ensures
            ok == self.wf(),
    {
        let len = self.memory.len();
        self.stack_offset <= len && len - self.stack_offset == self.stack_size
            && self.entry_offset < self.stack_offset && self.load_base <= u64::MAX - len as u64
    }
}

/// A buffer of `len` zero bytes.
pub open spec fn zeroed(len: nat) -> Seq<u8> {
    Seq::new(len, |i: int| 0u8)
}

/// What can be decided of `bytes` before any memory is asked for: the parsed
/// image and its layout, or the error of parsing, of planning, or of the
/// first relocation that cannot be applied.
pub open spec fn prepared(bytes: Seq<u8>) -> Result<(ImageModel, Layout), LoadError> {
    match parsed(bytes) {
        Err(e) => Err(e),
        Ok(image) => match planned(image) {
            Err(e) => Err(e),
            Ok(layout) => match relocation_error(image.relocations, layout.total() as nat) {
                Some(e) => Err(e),
                None => Ok((image, layout)),
            },
        },
    }
}

/// The backing buffer of `image` once its segments are copied in: a zeroed
/// buffer of the layout's size that holds the file bytes of every loadable
/// segment.
pub open spec fn materialized_image(image: ImageModel, file: Seq<u8>, layout: Layout) -> Seq<u8> {
    materialized(zeroed(layout.total() as nat), file, image.segments)
}

/// The contents of the backing buffer of `image` at load base `base`: the
/// segments are copied in, and the relocations are applied afterwards.
pub open spec fn loaded_memory(image: ImageModel, file: Seq<u8>, layout: Layout, base: u64) -> Seq<
    u8,
> {
    relocated(materialized_image(image, file, layout), base, image.relocations)
}

/// `Vec::as_ptr`, as a number: the address of the vector's buffer. Nothing is
/// claimed of it.
#[verifier::external_body]
fn buffer_address(memory: &Vec<u8>) -> u64 {
    memory.as_ptr() as u64
}

/// Parses `bytes`, plans the layout and checks every relocation. Nothing is
/// allocated for the kernel yet.
pub fn prepare(bytes: &[u8]) -> (r: Result<(ImageDescriptor, Layout), LoadError>)
    ensures
        match r {
            Ok((image, layout)) => prepared(bytes@) == Ok::<(ImageModel, Layout), LoadError>(
                (image@, layout),
            ) && image@.wf(bytes@.len()),
            Err(e) => prepared(bytes@) == Err::<(ImageModel, Layout), LoadError>(e),
        },
{
    let image = parse_image(bytes)?;
    let layout = plan_layout(&image)?;
    check_relocations(&image.relocations, layout.image_extent + layout.stack_size)?;
    Ok((image, layout))
}

/// Fills the zeroed buffer `memory`, which lies at address `base`, with the
/// image: copies the segments, then applies the relocations.
pub fn load_image_at(
    image: &ImageDescriptor,
    layout: &Layout,
    file: &[u8],
    memory: Vec<u8>,
    base: u64,
) -> (kernel: LoadedKernel)
    requires
        image@.wf(file@.len()),
        planned(image@) == Ok::<Layout, LoadError>(*layout),
        relocation_error(image@.relocations, layout.total() as nat) is None,
        memory@ == zeroed(layout.total() as nat),
        base + layout.total() <= u64::MAX,
    ensures
        kernel.wf(),
        kernel.memory@ == loaded_memory(image@, file@, *layout, base),
        kernel.entry_offset == image.entry,
        kernel.stack_offset == layout.image_extent,
        kernel.stack_size == layout.stack_size,
        kernel.load_base == base,
{
    let mut memory = memory;
    proof {
        lemma_image_extent_is_max(image@.segments);
        assert(placeable(image@.segments, file@.len(), memory@.len()));
    }
    materialize(&mut memory, file, &image.segments);
    let applied = apply_relocations(&mut memory, base, &image.relocations);
    assert(applied is Ok);
    proof {
        lemma_relocated_len(
            materialized_image(image@, file@, *layout),
            base,
            image@.relocations,
        );
    }
    LoadedKernel {
        memory,
        entry_offset: image.entry as usize,
        stack_offset: layout.image_extent,
        stack_size: layout.stack_size,
        load_base: base,
    }
}

/// Loads the kernel image `kernel_elf_bytes`: parses it, allocates a zeroed
/// backing buffer for the segments and the stack, copies the loadable
/// segments to their virtual addresses in it, and applies the relocations
/// for the address at which the buffer lies.
///
/// What is wrong with the image is found, and reported, before the buffer is
/// allocated. After that only memory can be missing.
pub fn load_kernel_elf(kernel_elf_bytes: &[u8]) -> (r: Result<LoadedKernel, LoadError>)
    ensures
        match prepared(kernel_elf_bytes@) {
            Err(e) => r matches Err(found) && found == e,
            Ok((image, layout)) => match r {
                Ok(kernel) => {
                    &&& kernel.wf()
                    &&& kernel.memory@ == loaded_memory(
                        image,
                        kernel_elf_bytes@,
                        layout,
                        kernel.load_base,
                    )
                    &&& kernel.entry_offset == image.entry
                    &&& kernel.stack_offset == image_extent(image.segments)
                    &&& kernel.stack_size == STACK_SIZE
                },
                Err(e) => e == LoadError::OutOfMemory,
            },
        },
{
    let (image, layout) = match prepare(kernel_elf_bytes) {
        Ok(pair) => pair,
        Err(e) => {
            return Err(e);
        },
    };
    let total: usize = layout.image_extent + layout.stack_size;
    let memory = allocate_backing(total)?;
    let base = buffer_address(&memory);
    if base > u64::MAX - total as u64 {
        return Err(LoadError::OutOfMemory);
    }
    Ok(load_image_at(&image, &layout, kernel_elf_bytes, memory, base))
}

/// For an image whose loadable segments do not overlap, the buffer into
/// which the segments were copied has the size of the image's extent plus
/// the stack, every loadable segment's file bytes stand unmodified at its
/// virtual address, and the bytes from its file size up to its virtual size
/// are zero.
pub proof fn lemma_image_materialized(image: ImageModel, file: Seq<u8>, layout: Layout, i: int)
    requires
        image.wf(file.len()),
        planned(image) == Ok::<Layout, LoadError>(layout),
        non_overlapping(image.segments),
        0 <= i < image.segments.len(),
    ensures
        materialized_image(image, file, layout).len() == image_extent(image.segments) + STACK_SIZE,
        materialized_image(image, file, layout).subrange(
            image.segments[i].virtual_address as int,
            image.segments[i].virtual_address + image.segments[i].file_size,
        ) == file.subrange(
            image.segments[i].file_offset as int,
            image.segments[i].file_offset + image.segments[i].file_size,
        ),
        forall|p: int|
            image.segments[i].virtual_address + image.segments[i].file_size <= p
                < image.segments[i].virtual_end() ==> #[trigger] materialized_image(
                image,
                file,
                layout,
            )[p] == 0u8,
{
    lemma_image_extent_is_max(image.segments);
    lemma_segments_materialized(zeroed(layout.total() as nat), file, image.segments, i);
}

} // verus!
