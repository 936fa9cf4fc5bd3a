use wasabi::acpi::{AcpiHpetDescriptor, AcpiRsdpStruct, GenericAddress, SystemDescriptionTableHeader, Xsdt, XsdtIterator};
use wasabi::memory::PhysMem;

const BASE: u64 = 0x7000_0000;
const RSDP: u64 = BASE;
const XSDT: u64 = BASE + 0x100;

fn put(bytes: &mut Vec<u8>, addr: u64, data: &[u8]) {
    let off = (addr - BASE) as usize;
    bytes[off..off + data.len()].copy_from_slice(data);
}

fn header(sig: &[u8; 4], length: u32) -> Vec<u8> {
    let mut h = vec![0u8; 36];
    h[0..4].copy_from_slice(sig);
    h[4..8].copy_from_slice(&length.to_le_bytes());
    h
}

fn hpet_table(space_id: u8, address: u64) -> Vec<u8> {
    let mut t = header(b"HPET", 56);
    t.resize(56, 0);
    t[36..40].copy_from_slice(&0x8086_a201u32.to_le_bytes());
    t[40] = space_id;
    t[41..44].copy_from_slice(&[0x40, 0x00, 0x00]);
    t[44..52].copy_from_slice(&address.to_le_bytes());
    t[52..56].copy_from_slice(&0x0000_0080u32.to_le_bytes());
    t
}

/// A memory image with an RSDP, an XSDT listing `tables`, and each table at its address.
fn image(tables: &[(u64, Vec<u8>)]) -> PhysMem {
    let mut bytes = vec![0u8; 0x1000];
    let mut rsdp = vec![0u8; 32];
    rsdp[0..8].copy_from_slice(b"RSD PTR ");
    rsdp[8] = 0x55;
    rsdp[9..15].copy_from_slice(b"BOCHS ");
    rsdp[15] = 2;
    rsdp[16..20].copy_from_slice(&0x7fe2_3a4cu32.to_le_bytes());
    rsdp[20..24].copy_from_slice(&36u32.to_le_bytes());
    rsdp[24..32].copy_from_slice(&XSDT.to_le_bytes());
    put(&mut bytes, RSDP, &rsdp);
    let mut xsdt = header(b"XSDT", 36 + 8 * tables.len() as u32);
    for (addr, _) in tables {
        xsdt.extend_from_slice(&addr.to_le_bytes());
    }
    put(&mut bytes, XSDT, &xsdt);
    for (addr, t) in tables {
        put(&mut bytes, *addr, t);
    }
    PhysMem { base: BASE, bytes }
}

fn sample() -> PhysMem {
    image(&[
        (BASE + 0x200, header(b"FACP", 36)),
        (BASE + 0x300, hpet_table(0, 0xfed0_0000)),
        (BASE + 0x400, hpet_table(0, 0x1234_5000)),
    ])
}

#[test]
fn rsdp_is_read_field_by_field() {
    let mem = sample();
    let rsdp = AcpiRsdpStruct::read(&mem, RSDP);
    assert_eq!(&rsdp.signature, b"RSD PTR ");
    assert_eq!(rsdp.checksum, 0x55);
    assert_eq!(&rsdp.oem_id, b"BOCHS ");
    assert_eq!(rsdp.revision, 2);
    assert_eq!(rsdp.rsdt_address, 0x7fe2_3a4c);
    assert_eq!(rsdp.length, 36);
    assert_eq!(rsdp.xsdt, XSDT);
}

#[test]
fn xsdt_counts_and_lists_entries() {
    let mem = sample();
    let xsdt = AcpiRsdpStruct::read(&mem, RSDP).xsdt(&mem);
    assert_eq!(xsdt.header_size(), 36);
    assert_eq!(&xsdt.header.signature, b"XSDT");
    assert_eq!(xsdt.header.length, 36 + 24);
    assert_eq!(xsdt.num_of_entries(), 3);
    assert_eq!(xsdt.entry(&mem, 0), BASE + 0x200);
    assert_eq!(xsdt.entry(&mem, 2), BASE + 0x400);
}

#[test]
fn xsdt_length_not_a_multiple_of_eight_drops_partial_entry() {
    let mem = sample();
    let mut xsdt = Xsdt::read(&mem, XSDT);
    xsdt.header.length = 36 + 8 + 7;
    assert_eq!(xsdt.num_of_entries(), 1);
}

#[test]
fn iterator_yields_each_header_then_none() {
    let mem = sample();
    let xsdt = Xsdt::read(&mem, XSDT);
    let mut it = XsdtIterator::new(&xsdt);
    let a = it.next(&mem).unwrap();
    assert_eq!(a.signature(), b"FACP");
    assert_eq!(a.addr, BASE + 0x200);
    let b = it.next(&mem).unwrap();
    assert_eq!(b.signature(), b"HPET");
    assert_eq!(b.length, 56);
    let c = it.next(&mem).unwrap();
    assert_eq!(c.addr, BASE + 0x400);
    assert!(it.next(&mem).is_none());
    assert!(it.next(&mem).is_none());
    assert_eq!(it.index, 3);
    let it2 = xsdt.iter();
    assert_eq!(it2.index, 0);
}

#[test]
fn find_table_returns_first_match() {
    let mem = sample();
    let xsdt = Xsdt::read(&mem, XSDT);
    let h = xsdt.find_table(&mem, b"HPET").unwrap();
    assert_eq!(h.addr, BASE + 0x300);
    let f = xsdt.find_table(&mem, b"FACP").unwrap();
    assert_eq!(f.addr, BASE + 0x200);
    assert!(xsdt.find_table(&mem, b"APIC").is_none());
}

#[test]
fn header_read_and_signature() {
    let mem = sample();
    let h = SystemDescriptionTableHeader::read(&mem, BASE + 0x300);
    assert_eq!(h.signature(), b"HPET");
    assert_eq!(h.length, 56);
    h.expect_signature(b"HPET");
}

#[test]
fn hpet_is_found_and_decoded() {
    let mem = sample();
    let rsdp = AcpiRsdpStruct::read(&mem, RSDP);
    assert!(rsdp.tables_in_memory(&mem));
    let hpet = rsdp.hpet(&mem).unwrap();
    assert_eq!(hpet._header.addr, BASE + 0x300);
    assert_eq!(hpet._reserved0, 0x8086_a201);
    assert_eq!(hpet.address.address_space_id, 0);
    assert_eq!(hpet.address._unused, [0x40, 0, 0]);
    assert_eq!(hpet.address.address, 0xfed0_0000);
    assert_eq!(hpet._reserved1, 0x80);
    assert_eq!(hpet.base_address(), Ok(0xfed0_0000));
}

#[test]
fn hpet_missing_gives_none() {
    let mem = image(&[(BASE + 0x200, header(b"FACP", 36)), (BASE + 0x300, header(b"APIC", 36))]);
    let rsdp = AcpiRsdpStruct::read(&mem, RSDP);
    assert!(rsdp.tables_in_memory(&mem));
    assert!(rsdp.hpet(&mem).is_none());
}

#[test]
fn empty_xsdt_has_no_hpet() {
    let mem = image(&[]);
    let rsdp = AcpiRsdpStruct::read(&mem, RSDP);
    assert_eq!(rsdp.xsdt(&mem).num_of_entries(), 0);
    assert!(rsdp.hpet(&mem).is_none());
}

#[test]
fn hpet_outside_memory_space_is_an_error() {
    let mem = image(&[(BASE + 0x300, hpet_table(1, 0x40))]);
    let rsdp = AcpiRsdpStruct::read(&mem, RSDP);
    let hpet = rsdp.hpet(&mem).unwrap();
    assert_eq!(
        hpet.base_address(),
        Err("ACPI generic Address is not in system memory space")
    );
}

#[test]
fn generic_address_in_memory_space() {
    let g = GenericAddress { address_space_id: 0, _unused: [0; 3], address: 0xfed0_0000 };
    assert_eq!(g.address_in_memory_space(), Ok(0xfed0_0000));
    let io = GenericAddress { address_space_id: 1, _unused: [0; 3], address: 0x40 };
    assert_eq!(
        io.address_in_memory_space(),
        Err("ACPI generic Address is not in system memory space")
    );
}

#[test]
fn hpet_descriptor_from_header() {
    let mem = sample();
    let h = SystemDescriptionTableHeader::read(&mem, BASE + 0x400);
    let t = AcpiHpetDescriptor::new(&mem, &h);
    assert_eq!(t.base_address(), Ok(0x1234_5000));
    assert_eq!(AcpiHpetDescriptor::SIGNATURE, *b"HPET");
}

#[test]
fn tables_outside_memory_are_detected() {
    // The XSDT lists a table past the end of the image.
    let mem = image(&[(BASE + 0x200, header(b"FACP", 36))]);
    let mut bytes = mem.bytes.clone();
    let entry = (XSDT - BASE) as usize + 36;
    bytes[entry..entry + 8].copy_from_slice(&(BASE + 0x2000).to_le_bytes());
    let far = PhysMem { base: BASE, bytes };
    assert!(!AcpiRsdpStruct::read(&far, RSDP).tables_in_memory(&far));
    // An HPET table whose header fits but whose body does not.
    let img = image(&[(BASE + 0xfd0, header(b"HPET", 56))]);
    assert!(!AcpiRsdpStruct::read(&img, RSDP).tables_in_memory(&img));
    // An XSDT that is not in the window at all.
    let mut rsdp = AcpiRsdpStruct::read(&mem, RSDP);
    rsdp.xsdt = 0x10;
    assert!(!rsdp.tables_in_memory(&mem));
}
