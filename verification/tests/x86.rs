use wasabi::memory::PhysMem;
use wasabi::x86::{Entry, PageAttr, TranslationResult, PD, PML4, PT, PAGE_SIZE};

type L4Entry = Entry<4, 39, PDPTMarker>;
struct PDPTMarker;

fn expected_entry_text(level: usize, addr: u64, v: u64) -> String {
    format!(
        "L{}Entry @ {:#018x} {{ {:#018X} {}{}{}}}",
        level,
        addr,
        v,
        if v & 1 != 0 { "P" } else { "N" },
        if v & 2 != 0 { "W" } else { "R" },
        if v & 4 != 0 { "U" } else { "S" },
    )
}

#[test]
fn entry_flags() {
    let e = L4Entry::from_value(0x0000_0000_0010_2003);
    assert_eq!(e.read_value(), 0x10_2003);
    assert!(e.is_present());
    assert!(e.is_writable());
    assert!(!e.is_user());
    let u = L4Entry::from_value(0x8000_0000_0000_0005);
    assert!(u.is_present());
    assert!(!u.is_writable());
    assert!(u.is_user());
    let n = L4Entry::from_value(0x6);
    assert!(!n.is_present());
}

#[test]
fn entry_table_address() {
    let e = L4Entry::from_value(0x0000_0000_0010_2fff);
    assert_eq!(e.table(), Ok(0x10_2000));
    let top = L4Entry::from_value(u64::MAX);
    assert_eq!(top.table(), Ok(0xffff_ffff_ffff_f000));
    let absent = L4Entry::from_value(0x10_2002);
    assert_eq!(absent.table(), Err("Page not fornd"));
}

#[test]
fn entry_format_matches_layout() {
    let e = L4Entry::from_value(0x10_2003);
    let s = e.format(0x7fb7_e008);
    assert_eq!(s, "L4Entry @ 0x000000007fb7e008 { 0x0000000000102003 PWS}");
    assert_eq!(s, expected_entry_text(4, 0x7fb7_e008, 0x10_2003));
    let n = Entry::<1, 12, [u8; PAGE_SIZE]>::from_value(0xdead_b006);
    assert_eq!(n.format(0), expected_entry_text(1, 0, 0xdead_b006));
    assert_eq!(n.format(0), "L1Entry @ 0x0000000000000000 { 0x00000000DEADB006 NWU}");
}

fn table_image(addr: u64, values: &[(usize, u64)]) -> PhysMem {
    let mut bytes = vec![0u8; 4096];
    for (i, v) in values {
        bytes[i * 8..i * 8 + 8].copy_from_slice(&v.to_le_bytes());
    }
    PhysMem { base: addr, bytes }
}

#[test]
fn table_next_level() {
    let mem = table_image(0x1000, &[(0, 0x2003), (1, 0x3002), (511, 0xffff_f000_0000_0007)]);
    let t = PML4::read(&mem, 0x1000);
    assert_eq!(t.next_level(0), Some(0x2000));
    assert_eq!(t.next_level(1), None);
    assert_eq!(t.next_level(2), None);
    assert_eq!(t.next_level(511), Some(0xffff_f000_0000_0000));
    assert_eq!(t.next_level(512), None);
    assert_eq!(t.next_level(usize::MAX), None);
}

#[test]
fn table_walk_through_levels() {
    // PML4 at 0x1000 -> PDPT at 0x2000 -> PD at 0x3000 -> PT at 0x4000.
    let mut bytes = vec![0u8; 0x4000];
    bytes[0..8].copy_from_slice(&0x2003u64.to_le_bytes());
    bytes[0x1000..0x1008].copy_from_slice(&0x3003u64.to_le_bytes());
    bytes[0x2000..0x2008].copy_from_slice(&0x4003u64.to_le_bytes());
    bytes[0x3000 + 8..0x3000 + 16].copy_from_slice(&0x9000_0003u64.to_le_bytes());
    let mem = PhysMem { base: 0x1000, bytes };
    let pml4 = PML4::read(&mem, 0x1000);
    let pdpt = pml4.next_level(0).unwrap();
    assert_eq!(pdpt, 0x2000);
    let pd_addr = wasabi::x86::PDPT::read(&mem, pdpt).next_level(0).unwrap();
    assert_eq!(pd_addr, 0x3000);
    let pt_addr = PD::read(&mem, pd_addr).next_level(0).unwrap();
    assert_eq!(pt_addr, 0x4000);
    let pt = PT::read(&mem, pt_addr);
    assert_eq!(pt.next_level(0), None);
    assert_eq!(pt.next_level(1), Some(0x9000_0000));
}

#[test]
fn table_format_lists_present_entries() {
    let mem = table_image(0x1000, &[(0, 0x2003), (1, 0x3002), (42, 0x5007), (511, 0x6001)]);
    let t = PD::read(&mem, 0x1000);
    let mut expected = format!("L{}Table @ {:#018x} {{\n", 2, 0x1000u64);
    for (i, v) in [(0usize, 0x2003u64), (42, 0x5007), (511, 0x6001)] {
        expected += &format!("entry[{:3}] = {}\n", i, expected_entry_text(2, 0x1000 + 8 * i as u64, v));
    }
    expected += "}\n";
    assert_eq!(t.format(0x1000), expected);
    assert!(t.format(0x1000).contains("entry[ 42] = L2Entry @ 0x0000000000001150 { 0x0000000000005007 PWU}\n"));
}

#[test]
fn empty_table_format() {
    let mem = table_image(0x1000, &[]);
    let t = PT::read(&mem, 0x1000);
    assert_eq!(t.format(0x1000), "L1Table @ 0x0000000000001000 {\n}\n");
}

#[test]
fn page_attr_bits() {
    assert_eq!(PageAttr::NotPresent.bits(), 0);
    assert_eq!(PageAttr::ReadWriteKernel.bits(), 0b11);
    assert_eq!(PageAttr::ReadWriteIo.bits(), 0b1_1011);
    let e = Entry::<1, 12, [u8; PAGE_SIZE]>::from_value(0x5000 | PageAttr::ReadWriteIo.bits());
    assert!(e.is_present() && e.is_writable() && !e.is_user());
    assert_eq!(e.table(), Ok(0x5000));
    let n = Entry::<1, 12, [u8; PAGE_SIZE]>::from_value(0x5000 | PageAttr::NotPresent.bits());
    assert!(!n.is_present());
}

#[test]
fn translation_result_equality() {
    assert_eq!(TranslationResult::PageMapped4K { phys: 0x1000 }, TranslationResult::PageMapped4K { phys: 0x1000 });
    assert_ne!(TranslationResult::PageMapped2M { phys: 0x1000 }, TranslationResult::PageMapped1G { phys: 0x1000 });
}
