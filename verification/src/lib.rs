//! The boot-to-kernel handoff of a small operating system, as a verified library.
//!
//! The loader half parses the kernel's executable image, lays it out in one
//! backing buffer, copies the loadable segments, patches base-relative
//! relocations, translates the firmware's memory map and builds the handoff
//! record. The kernel half accounts for usable memory, hands out memory from
//! a bump arena and drives the serial console.

pub mod arena;
pub mod elf_file;
pub mod error;
pub mod handoff;
pub mod image;
pub mod layout;
pub mod loader;
pub mod materialize;
pub mod memory_map;
pub mod parser;
pub mod relocation;
pub mod serial;
pub mod usable_memory;
