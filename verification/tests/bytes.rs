use vfs_shim::bytes::{
    push_u16, push_u32, push_u64, push_units, push_zeros, text_from_utf8, u16_at, u32_at, u64_at,
    units_at,
};

#[test]
fn fields_are_written_least_significant_byte_first() {
    let mut b = vec![0xEEu8];
    push_u16(&mut b, 0x0102);
    push_u32(&mut b, 0x0304_0506);
    push_u64(&mut b, 0x0708_090A_0B0C_0D0E);
    push_zeros(&mut b, 2);
    assert_eq!(b, [0xEE, 2, 1, 6, 5, 4, 3, 14, 13, 12, 11, 10, 9, 8, 7, 0, 0]);
    assert_eq!(u16_at(&b, 1), 0x0102);
    assert_eq!(u32_at(&b, 3), 0x0304_0506);
    assert_eq!(u64_at(&b, 7), 0x0708_090A_0B0C_0D0E);
}

#[test]
fn extreme_fields_read_back() {
    for x in [0u64, 1, 0xFF, 0x100, u64::MAX / 2, u64::MAX] {
        let mut b = Vec::new();
        push_u64(&mut b, x);
        push_u32(&mut b, x as u32);
        push_u16(&mut b, x as u16);
        assert_eq!(b[..8], x.to_le_bytes());
        assert_eq!((u64_at(&b, 0), u32_at(&b, 8), u16_at(&b, 12)), (x, x as u32, x as u16));
    }
}

#[test]
fn units_and_texts_read_back() {
    let units: Vec<u16> = "a\u{e9}\u{1F600}".encode_utf16().collect();
    let mut b = vec![9u8];
    push_units(&mut b, &units);
    assert_eq!(b[1..5], [0x61, 0, 0xE9, 0]);
    assert_eq!(units_at(&b, 1, units.len()), units);
    assert_eq!(text_from_utf8(b"abc").as_deref(), Some("abc"));
    assert_eq!(text_from_utf8(&[0xFF]), None);
}
