use toyos::handoff::{
    memory_map_entries, start_kernel, KernelArgs, MemoryMapEntry, MEMORY_MAP_ENTRY_SIZE,
};
use toyos::layout::STACK_SIZE;
use toyos::loader::LoadedKernel;
use toyos::memory_map::{
    memory_map_capacity, region_in_range, translate_memory_map, translate_region, FirmwareRegion,
    MEMORY_MAP_SLACK, PAGE_SIZE,
};

#[test]
fn capacity_adds_slack_to_the_estimate() {
    assert_eq!(MEMORY_MAP_SLACK, 8);
    assert_eq!(memory_map_capacity(480, 48), 18);
    assert_eq!(memory_map_capacity(479, 48), 17);
    assert_eq!(memory_map_capacity(0, 40), 8);
    assert_eq!(memory_map_capacity(usize::MAX, 2), usize::MAX / 2 + 8);
}

#[test]
fn region_is_translated_to_a_range() {
    assert_eq!(PAGE_SIZE, 4096);
    let region = FirmwareRegion { ty: 7, phys_start: 0x10_0000, page_count: 3 };
    assert_eq!(
        translate_region(&region),
        MemoryMapEntry { uefi_type: 7, start: 0x10_0000, end: 0x10_3000 }
    );
    let empty = FirmwareRegion { ty: 0, phys_start: 0x5000, page_count: 0 };
    assert_eq!(
        translate_region(&empty),
        MemoryMapEntry { uefi_type: 0, start: 0x5000, end: 0x5000 }
    );
}

#[test]
fn region_range_check_is_exact() {
    let top = FirmwareRegion { ty: 7, phys_start: u64::MAX - 4096, page_count: 1 };
    assert!(region_in_range(&top));
    assert_eq!(translate_region(&top).end, u64::MAX);
    let over = FirmwareRegion { ty: 7, phys_start: u64::MAX - 4095, page_count: 1 };
    assert!(!region_in_range(&over));
    let many = FirmwareRegion { ty: 7, phys_start: 0, page_count: 1 << 52 };
    assert!(!region_in_range(&many));
    let most = FirmwareRegion { ty: 7, phys_start: 4095, page_count: (1 << 52) - 1 };
    assert!(region_in_range(&most));
    assert_eq!(translate_region(&most).end, u64::MAX);
}

#[test]
fn translation_preserves_count_and_order() {
    let regions = vec![
        FirmwareRegion { ty: 7, phys_start: 0x0, page_count: 0xa0 },
        FirmwareRegion { ty: 0, phys_start: 0xa_0000, page_count: 0x60 },
        FirmwareRegion { ty: 4, phys_start: 0x10_0000, page_count: 0x700 },
        FirmwareRegion { ty: 11, phys_start: 0xfec0_0000, page_count: 1 },
        FirmwareRegion { ty: 7, phys_start: 0x1_0000_0000, page_count: 0x4_0000 },
    ];
    let mut memory_map = Vec::with_capacity(memory_map_capacity(5 * 48, 48));
    translate_memory_map(&regions, &mut memory_map);
    assert_eq!(memory_map.len(), regions.len());
    assert_eq!(
        memory_map,
        vec![
            MemoryMapEntry { uefi_type: 7, start: 0x0, end: 0xa_0000 },
            MemoryMapEntry { uefi_type: 0, start: 0xa_0000, end: 0x10_0000 },
            MemoryMapEntry { uefi_type: 4, start: 0x10_0000, end: 0x80_0000 },
            MemoryMapEntry { uefi_type: 11, start: 0xfec0_0000, end: 0xfec0_1000 },
            MemoryMapEntry { uefi_type: 7, start: 0x1_0000_0000, end: 0x1_4000_0000 },
        ]
    );
    for (region, entry) in regions.iter().zip(memory_map.iter()) {
        assert_eq!(entry.uefi_type, region.ty);
        assert_eq!(entry.start, region.phys_start);
        assert_eq!(entry.end, region.phys_start + region.page_count * 4096);
    }
}

#[test]
fn translation_appends_to_what_is_there() {
    let first = MemoryMapEntry { uefi_type: 9, start: 1, end: 2 };
    let mut memory_map = vec![first];
    translate_memory_map(&[], &mut memory_map);
    assert_eq!(memory_map, vec![first]);
    translate_memory_map(&[FirmwareRegion { ty: 2, phys_start: 4096, page_count: 2 }], &mut memory_map);
    assert_eq!(memory_map, vec![first, MemoryMapEntry { uefi_type: 2, start: 4096, end: 12288 }]);
}

#[test]
fn handoff_record_holds_addresses_and_sizes() {
    let kernel = LoadedKernel {
        memory: vec![0xABu8; 0x3000],
        entry_offset: 0x240,
        stack_offset: 0x1000,
        stack_size: 0x2000,
        load_base: 0x4000_0000,
    };
    let handoff = start_kernel(kernel, 0x7f00_1000, 5);
    assert_eq!(
        handoff.args,
        KernelArgs {
            memory_map_addr: 0x7f00_1000,
            memory_map_size: 120,
            kernel_memory_addr: 0x4000_0000,
            kernel_memory_size: 0x3000,
            kernel_stack_addr: 0x4000_1000,
            kernel_stack_size: 0x2000,
        }
    );
    assert_eq!(handoff.entry_addr, 0x4000_0240);
    assert_eq!(handoff.memory, vec![0xABu8; 0x3000]);
    assert_eq!(memory_map_entries(&handoff.args), 5);
}

#[test]
fn handoff_of_a_loaded_image() {
    let kernel = LoadedKernel {
        memory: vec![0u8; 4608 + STACK_SIZE],
        entry_offset: 0x200,
        stack_offset: 4608,
        stack_size: STACK_SIZE,
        load_base: 0x10_0000,
    };
    let handoff = start_kernel(kernel, 0, 0);
    assert_eq!(handoff.args.memory_map_size, 0);
    assert_eq!(handoff.args.kernel_memory_size, 8393216);
    assert_eq!(handoff.args.kernel_stack_addr, 0x10_0000 + 4608);
    assert_eq!(handoff.args.kernel_stack_size, 8388608);
    assert_eq!(handoff.entry_addr, 0x10_0200);
}

#[test]
fn entry_count_is_the_size_in_entries() {
    assert_eq!(MEMORY_MAP_ENTRY_SIZE, 24);
    let mut args = KernelArgs {
        memory_map_addr: 0,
        memory_map_size: 0,
        kernel_memory_addr: 0,
        kernel_memory_size: 0,
        kernel_stack_addr: 0,
        kernel_stack_size: 0,
    };
    assert_eq!(memory_map_entries(&args), 0);
    args.memory_map_size = 24 * 37;
    assert_eq!(memory_map_entries(&args), 37);
    args.memory_map_size = 24 * 37 + 23;
    assert_eq!(memory_map_entries(&args), 37);
}
