use lib_klipper::text::{
    less, push_chars, push_decimal, push_text,
    char_is_blank, char_is_whitespace, char_to_ascii_uppercase, make_string, scan_from,
    starts_with_at, to_chars, trim_end_at, trim_start_at, Stop,
};

#[test]
fn whitespace_is_what_the_standard_library_calls_so() {
    for n in 0..=0x10ffffu32 {
        if let Some(c) = char::from_u32(n) {
            assert_eq!(char_is_whitespace(c), c.is_whitespace(), "U+{:04X}", n);
            assert_eq!(char_to_ascii_uppercase(c), c.to_ascii_uppercase(), "U+{:04X}", n);
        }
    }
}

#[test]
fn blanks_are_space_and_tab() {
    assert!(char_is_blank(' '));
    assert!(char_is_blank('\t'));
    assert!(!char_is_blank('\n'));
    assert!(!char_is_blank('x'));
}

#[test]
fn characters_and_strings() {
    let v = to_chars("héllo wörld");
    assert_eq!(v.len(), 11);
    assert_eq!(v[1], 'é');
    assert_eq!(make_string(&v, 6, 11), "wörld");
    assert_eq!(make_string(&v, 3, 3), "");
}

#[test]
fn trimming_by_position() {
    let v = to_chars(" \t ab c \u{3000}\n");
    assert_eq!(trim_start_at(&v, 0, v.len()), 3);
    assert_eq!(trim_end_at(&v, 3, v.len()), 7);
    assert_eq!(trim_start_at(&v, 7, v.len()), v.len());
    assert_eq!(trim_end_at(&v, 0, 3), 0);
}

#[test]
fn prefix_by_position() {
    let v = to_chars("xxTYPE:abc");
    let p = to_chars("TYPE:");
    assert!(starts_with_at(&v, 2, v.len(), &p));
    assert!(!starts_with_at(&v, 0, v.len(), &p));
    assert!(!starts_with_at(&v, 2, 6, &p));
    assert!(starts_with_at(&v, 4, 4, &to_chars("")));
}

#[test]
fn scanning_stops_where_asked() {
    let v = to_chars("  ab_1-c=\"q\" ;x");
    assert_eq!(scan_from(&v, 0, Stop::NonBlank), 2);
    assert_eq!(scan_from(&v, 2, Stop::NonName), 6);
    assert_eq!(scan_from(&v, 2, Stop::Char('=')), 8);
    assert_eq!(scan_from(&v, 2, Stop::KeyEnd), 8);
    assert_eq!(scan_from(&v, 9, Stop::KeyEnd), 13);
    assert_eq!(scan_from(&v, 2, Stop::ValueEnd), 9);
    assert_eq!(scan_from(&v, 2, Stop::Separator), 12);
    assert_eq!(scan_from(&v, 14, Stop::Char('!')), v.len());
    assert!(Stop::Separator.test(';'));
    assert!(!Stop::NonName.test('é'));
}

#[test]
fn strings_are_ordered_as_the_standard_library_orders_them() {
    let words = ["", "a", "ab", "b", "B", "\u{e9}", "e\u{301}", "zz", "z", "\u{10348}", "\u{ffff}"];
    for a in words {
        for b in words {
            assert_eq!(less(a, b), a < b, "{:?} {:?}", a, b);
        }
    }
}

#[test]
fn numbers_in_decimal_notation() {
    for n in [0u64, 7, 10, 99, 100, 65535, 1234567890, u64::MAX] {
        let mut out = vec!['#'];
        push_decimal(&mut out, n);
        assert_eq!(out.iter().collect::<String>(), format!("#{}", n));
    }
}

#[test]
fn appending_characters() {
    let mut out = vec!['a'];
    push_text(&mut out, "bc");
    push_chars(&mut out, &vec!['d']);
    push_text(&mut out, "");
    assert_eq!(out, ['a', 'b', 'c', 'd']);
}
