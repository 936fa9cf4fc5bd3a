use wasabi::text::{hex_digit_count, push_dec, push_hex_fixed, push_hex_prefixed};

#[test]
fn hex_prefixed_matches_std() {
    for v in [0u64, 1, 0xf, 0x10, 0x38, 0xabc, 0x12345, u64::MAX, 0x8000_0000_0000_0000] {
        let mut s = String::new();
        push_hex_prefixed(&mut s, v, 16, true);
        assert_eq!(s, format!("{:#018X}", v));
        let mut s = String::new();
        push_hex_prefixed(&mut s, v, 4, true);
        assert_eq!(s, format!("{:#06X}", v));
        let mut s = String::new();
        push_hex_prefixed(&mut s, v, 16, false);
        assert_eq!(s, format!("{:#018x}", v));
        let mut s = String::new();
        push_hex_prefixed(&mut s, v, 2, true);
        assert_eq!(s, format!("{:#04X}", v));
    }
}

#[test]
fn hex_fixed_keeps_low_digits() {
    let mut s = String::from("x=");
    push_hex_fixed(&mut s, 0x1234, 2, false);
    assert_eq!(s, "x=34");
    let mut s = String::new();
    push_hex_fixed(&mut s, 0xab, 0, true);
    assert_eq!(s, "");
}

#[test]
fn digit_counts() {
    assert_eq!(hex_digit_count(0), 1);
    assert_eq!(hex_digit_count(0xf), 1);
    assert_eq!(hex_digit_count(0x10), 2);
    assert_eq!(hex_digit_count(u64::MAX), 16);
}

#[test]
fn decimal() {
    for v in [0u64, 7, 10, 99, 100, 511, 4096, u64::MAX] {
        let mut s = String::new();
        push_dec(&mut s, v);
        assert_eq!(s, v.to_string());
    }
}

