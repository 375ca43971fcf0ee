use vfs_shim::bytes::{
    push_bytes, push_u16, push_u32, push_u64, push_units, push_zeros, text_from_utf8,
    u16_at, u32_at, u64_at, units_at,
};
use vfs_shim::ntdef::{object_name_str, ObjectAttributes, UnicodeString};
use vfs_shim::paths::{join, resolve_under, strip_device, to_nt, to_win};
use vfs_shim::text::{
    chars_of, contains_text, decimal_text, decode_utf16, encode_utf16, final_component,
    has_prefix, has_suffix, joined, lower_text, parse_number, push_hex, push_left, push_right,
    push_signed, replace_char, same_ignoring_ascii_case, same_text, trim, trim_end,
    trim_start, without_prefix, CharClass,
};

#[test]
fn texts_come_apart_and_together() {
    let s = "aé\u{1F600}";
    assert_eq!(chars_of(s).into_iter().collect::<String>(), s);
    assert_eq!(joined("a", "b"), "ab");
    assert!(same_text("x", "x") && !same_text("x", "xy"));
    assert!(has_prefix("abc", "ab") && !has_prefix("a", "ab"));
    assert!(has_suffix("abc", "bc") && !has_suffix("c", "bc"));
    assert_eq!(without_prefix("abc", "ab"), Some("c"));
    assert_eq!(without_prefix("abc", "b"), None);
    assert!(contains_text("abcd", "bc") && contains_text("a", "") && !contains_text("ab", "ba"));
    assert_eq!(final_component(r"a/b\c"), "c");
    assert_eq!(final_component("a/"), "");
    assert_eq!(replace_char("a/b/c", '/', '\\'), r"a\b\c");
}

#[test]
fn case_and_space_follow_the_standard_library() {
    for s in ["\t a\u{a0}b \u{2003}\n", "", " ", "\u{200b}x\u{feff}", "\u{85}y\u{3000}"] {
        assert_eq!(trim(s), s.trim(), "{s:?}");
    }
    assert_eq!(lower_text("ÀBcZ[@"), "ÀBcZ[@".to_ascii_lowercase());
    assert!(same_ignoring_ascii_case("SkyrimSE.exe", "skyrimse.EXE"));
    assert!(!same_ignoring_ascii_case("É", "é"));
    assert_eq!(trim_end(r"C:\x\/", CharClass::Separator), r"C:\x");
    assert_eq!(trim_start(r"/\x", CharClass::Separator), "x");
}

#[test]
fn numbers_are_written_as_the_standard_library_does() {
    for n in [0u64, 9, 10, 99, 1 << 40, u64::MAX] {
        assert_eq!(decimal_text(n), format!("{n}"));
        let mut s = String::new();
        push_hex(&mut s, n, 16);
        assert_eq!(s, format!("{n:016x}"));
        for w in [0usize, 5, 30] {
            let mut right = String::new();
            push_right(&mut right, &decimal_text(n), w);
            assert_eq!(right, format!("{n:>w$}"));
            let mut left = String::new();
            push_left(&mut left, &decimal_text(n), w);
            assert_eq!(left, format!("{n:<w$}"));
        }
    }
    for n in [0, 7, -7, i32::MIN, i32::MAX] {
        let mut s = String::new();
        push_signed(&mut s, n);
        assert_eq!(s, format!("{n}"));
    }
}

#[test]
fn numbers_are_read_as_the_standard_library_does() {
    for s in ["0", "+7", "-1", "", "+", "12a", "ff", "FF", "4294967295", "4294967296", " 1", "0007"] {
        assert_eq!(parse_number(s, 10, u32::MAX as u64), s.parse::<u32>().ok().map(u64::from), "{s}");
        assert_eq!(parse_number(s, 16, u64::MAX), u64::from_str_radix(s, 16).ok(), "{s}");
    }
}

#[test]
fn utf16_is_read_and_written_as_the_standard_library_does() {
    for s in ["", "abc", "é\u{1F600}\u{10FFFF}\u{D7FF}\u{E000}"] {
        let units: Vec<u16> = s.encode_utf16().collect();
        assert_eq!(encode_utf16(s), units);
        assert_eq!(decode_utf16(&units), s);
    }
    for units in [
        vec![0xD800u16],
        vec![0xDC00, 0x41],
        vec![0xD800, 0xD800, 0xDC00],
        vec![0xD83D, 0xDE00, 0xD83D],
    ] {
        assert_eq!(decode_utf16(&units), String::from_utf16_lossy(&units));
    }
}

#[test]
fn fields_are_little_endian() {
    let mut b = Vec::new();
    push_u16(&mut b, 0x0102);
    push_u32(&mut b, 0x03040506);
    push_u64(&mut b, 0x0708090a0b0c0d0e);
    push_bytes(&mut b, &[1, 2]);
    push_zeros(&mut b, 2);
    push_units(&mut b, &[0x0f10]);
    assert_eq!(b[..6], [2, 1, 6, 5, 4, 3]);
    assert_eq!(u16_at(&b, 0), 0x0102);
    assert_eq!(u32_at(&b, 2), 0x03040506);
    assert_eq!(u64_at(&b, 6), 0x0708090a0b0c0d0e);
    assert_eq!(b[14..], [1, 2, 0, 0, 0x10, 0x0f]);
    assert_eq!(units_at(&b, 18, 1), [0x0f10]);
}

#[test]
fn bytes_are_text_where_they_are_utf8() {
    assert_eq!(text_from_utf8("aé\u{1F600}".as_bytes()).as_deref(), Some("aé\u{1F600}"));
    for bad in [&[0xffu8][..], &[0xc3], &[0xed, 0xa0, 0x80], &[0xf4, 0x90, 0x80, 0x80]] {
        assert_eq!(text_from_utf8(bad), None);
    }
}

#[test]
fn paths_change_form() {
    assert_eq!(to_nt(r"C:\x"), r"\??\C:\x");
    assert_eq!(to_nt(r"\??\C:\x"), r"\??\C:\x");
    assert_eq!(to_win(r"\??\C:\x"), r"C:\x");
    assert_eq!(strip_device(r"\\?\C:\x"), r"C:\x");
    assert_eq!(join(&["a".to_string(), "b".to_string()]), "a/b");
    assert_eq!(resolve_under(r"\??\C:\d", "a.esp"), r"\??\C:\d\a.esp");
    assert_eq!(resolve_under(r"\??\C:\d\", "a.esp"), r"\??\C:\d\a.esp");
}

#[test]
fn counted_texts_read_back() {
    let u = UnicodeString::of_text("abc");
    assert_eq!((u.length, u.maximum_length), (6, 6));
    assert_eq!(u.to_text().as_deref(), Some("abc"));
    let t = UnicodeString::of_text_terminated("abc");
    assert_eq!(t.length, 6);
    assert_eq!(t.to_text().as_deref(), Some("abc"));
    let oa = ObjectAttributes { root_directory: 0, object_name: Some(u), attributes: 0 };
    assert_eq!(object_name_str(Some(&oa)).as_deref(), Some("abc"));
    assert_eq!(object_name_str(None), None);
}
