use wasabi::memory::PhysMem;

#[test]
fn little_endian_reads() {
    let mem = PhysMem { base: 0x100, bytes: vec![0x01, 0x02, 0x03, 0x04, 0x05, 0x06, 0x07, 0x88, 0xff] };
    assert_eq!(mem.read_u8(0x100), 0x01);
    assert_eq!(mem.read_u16(0x100), 0x0201);
    assert_eq!(mem.read_u32(0x101), 0x0504_0302);
    assert_eq!(mem.read_u64(0x100), 0x8807_0605_0403_0201);
    assert_eq!(mem.read_u64(0x101), 0xff88_0706_0504_0302);
}

#[test]
fn window_bounds() {
    let mem = PhysMem { base: 0x100, bytes: vec![0; 16] };
    assert!(mem.is_wf());
    assert!(mem.holds(0x100, 16));
    assert!(mem.holds(0x108, 8));
    assert!(!mem.holds(0x109, 8));
    assert!(!mem.holds(0xff, 1));
    assert!(mem.holds(0x110, 0));
    let top = PhysMem { base: u64::MAX - 1, bytes: vec![0; 2] };
    assert!(top.is_wf());
    assert!(top.holds(u64::MAX, 1));
    let over = PhysMem { base: u64::MAX - 1, bytes: vec![0; 3] };
    assert!(!over.is_wf());
}
