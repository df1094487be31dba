//! The records that the loader hands to the kernel.

use vstd::prelude::*;
use crate::loader::LoadedKernel;

verus! {

/// Size in bytes of one memory-map entry as the kernel reads it: a 32-bit
/// tag, four bytes of padding, and two 64-bit addresses.
pub const MEMORY_MAP_ENTRY_SIZE: u64 = 24;

/// One region of physical memory: its firmware type tag and the half-open
/// range `start..end` of addresses that it covers.
#[derive(Clone, Copy, Debug, PartialEq, Eq, Structural)]
pub struct MemoryMapEntry {
    pub uefi_type: u32,
    pub start: u64,
    pub end: u64,
}

/// The argument of the kernel's entry point: six 64-bit fields in this order.
#[derive(Clone, Copy, Debug, PartialEq, Eq, Structural)]
pub struct KernelArgs {
    pub memory_map_addr: u64,
    pub memory_map_size: u64,
    pub kernel_memory_addr: u64,
    pub kernel_memory_size: u64,
    pub kernel_stack_addr: u64,
    pub kernel_stack_size: u64,
}

/// Everything that the jump into the kernel needs. It owns the kernel's
/// memory: whoever makes the jump takes the buffer out and must never free
/// it, since from then on it belongs to the kernel.
#[derive(Debug)]
pub struct Handoff {
    /// The argument of the kernel's entry point.
    pub args: KernelArgs,
    /// The address to jump to.
    pub entry_addr: u64,
    /// The kernel's backing buffer.
    pub memory: Vec<u8>,
}

/// The handoff record for `kernel` and a translated memory map of
/// `memory_map_entries` entries that lies at `memory_map_addr`.
pub open spec fn kernel_args(
    kernel: LoadedKernel,
    memory_map_addr: u64,
    memory_map_entries: usize,
) -> KernelArgs {
    KernelArgs {
        memory_map_addr,
        memory_map_size: (memory_map_entries * MEMORY_MAP_ENTRY_SIZE) as u64,
        kernel_memory_addr: kernel.load_base,
        kernel_memory_size: kernel.memory@.len() as u64,
        kernel_stack_addr: (kernel.load_base + kernel.stack_offset) as u64,
        kernel_stack_size: kernel.stack_size as u64,
    }
}

/// Gives up the loaded kernel for the jump: builds the handoff record from
/// the addresses and sizes of the kernel's buffer and of the translated
/// memory map, and computes the address of the entry point. The kernel's
/// buffer moves into the result unchanged.
pub fn start_kernel(kernel: LoadedKernel, memory_map_addr: u64, memory_map_entries: usize) -> (handoff:
    Handoff)
    requires
        kernel.wf(),
        memory_map_entries * MEMORY_MAP_ENTRY_SIZE <= u64::MAX,
    ensures
        handoff.args == kernel_args(kernel, memory_map_addr, memory_map_entries),
        handoff.entry_addr == kernel.load_base + kernel.entry_offset,
        handoff.memory@ == kernel.memory@,
        kernel.load_base <= handoff.entry_addr < handoff.args.kernel_stack_addr,
        handoff.args.kernel_stack_addr + handoff.args.kernel_stack_size
            == handoff.args.kernel_memory_addr + handoff.args.kernel_memory_size,
{
    let args = KernelArgs {
        memory_map_addr,
        memory_map_size: memory_map_entries as u64 * MEMORY_MAP_ENTRY_SIZE,
        kernel_memory_addr: kernel.load_base,
        kernel_memory_size: kernel.memory.len() as u64,
        kernel_stack_addr: kernel.load_base + kernel.stack_offset as u64,
        kernel_stack_size: kernel.stack_size as u64,
    };
    let entry_addr = kernel.load_base + kernel.entry_offset as u64;
    Handoff { args, entry_addr, memory: kernel.memory }
}

/// How many entries the memory map that `args` describes holds.
pub fn memory_map_entries(args: &KernelArgs) -> (entries: u64)
    ensures
        entries == args.memory_map_size / MEMORY_MAP_ENTRY_SIZE,
{
    args.memory_map_size / MEMORY_MAP_ENTRY_SIZE
}

} // verus!
