use wasabi::memory_map::{conventional_memory_total, conventional_total_fits, total_line, MemoryDescriptor, CONVENTIONAL_MEMORY};

#[test]
fn totals_only_conventional_memory() {
    let map = [
        MemoryDescriptor { memory_type: CONVENTIONAL_MEMORY, number_of_pages: 0x100 },
        MemoryDescriptor { memory_type: 3, number_of_pages: 0x5000 },
        MemoryDescriptor { memory_type: CONVENTIONAL_MEMORY, number_of_pages: 0x7_e000 },
        MemoryDescriptor { memory_type: 10, number_of_pages: 1 },
    ];
    let (pages, mib) = conventional_memory_total(&map);
    assert_eq!(pages, 0x7_e100);
    assert_eq!(mib, 0x7_e100 * 4096 / 1024 / 1024);
    assert_eq!(mib, 2017);
    assert_eq!(total_line(pages, mib), format!("Total: {pages} pages = {mib} MIB"));
}

#[test]
fn empty_map_and_partial_mib() {
    assert_eq!(conventional_memory_total(&[]), (0, 0));
    let map = [MemoryDescriptor { memory_type: CONVENTIONAL_MEMORY, number_of_pages: 255 }];
    assert_eq!(conventional_memory_total(&map), (255, 0));
    assert_eq!(total_line(0, 0), "Total: 0 pages = 0 MIB");
}

#[test]
fn total_fits_check() {
    let ok = [MemoryDescriptor { memory_type: CONVENTIONAL_MEMORY, number_of_pages: u64::MAX / 4096 }];
    assert!(conventional_total_fits(&ok));
    let too_big = [MemoryDescriptor { memory_type: CONVENTIONAL_MEMORY, number_of_pages: u64::MAX / 4096 + 1 }];
    assert!(!conventional_total_fits(&too_big));
    let wraps = [
        MemoryDescriptor { memory_type: CONVENTIONAL_MEMORY, number_of_pages: u64::MAX },
        MemoryDescriptor { memory_type: CONVENTIONAL_MEMORY, number_of_pages: 2 },
    ];
    assert!(!conventional_total_fits(&wraps));
    let other = [MemoryDescriptor { memory_type: 3, number_of_pages: u64::MAX }];
    assert!(conventional_total_fits(&other));
    assert!(conventional_total_fits(&[]));
}
