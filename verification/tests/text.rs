use gitwasm::text::{chars_of, decode_lossy, is_whitespace, lines_of, trim, trim_end};

#[test]
fn lines_split_like_str_lines() {
    assert_eq!(lines_of("a\r\nb\nc"), vec!["a".to_string(), "b".to_string(), "c".to_string()]);
    assert_eq!(lines_of("a\n"), vec!["a".to_string()]);
    assert_eq!(lines_of("\n"), vec![String::new()]);
    assert_eq!(lines_of(""), Vec::<String>::new());
    assert_eq!(lines_of("a\r"), vec!["a\r".to_string()]);
    assert_eq!(lines_of("a\n\nb"), vec!["a".to_string(), String::new(), "b".to_string()]);
}

#[test]
fn trims() {
    assert_eq!(trim("  a b \n"), "a b");
    assert_eq!(trim("\u{A0}x\u{3000}"), "x");
    assert_eq!(trim(" \t "), "");
    assert_eq!(trim_end("  a b \n"), "  a b");
    assert_eq!(trim_end(""), "");
}

#[test]
fn whitespace_classes() {
    assert!(is_whitespace(' '));
    assert!(is_whitespace('\t'));
    assert!(is_whitespace('\u{0B}'));
    assert!(is_whitespace('\u{A0}'));
    assert!(!is_whitespace('a'));
    assert!(!is_whitespace('\0'));
}

#[test]
fn lossy_decoding() {
    assert_eq!(decode_lossy(b"ok"), "ok");
    assert_eq!(decode_lossy(b"a\xffb"), "a\u{FFFD}b");
}

#[test]
fn chars_in_order() {
    assert_eq!(chars_of("añb"), vec!['a', 'ñ', 'b']);
}

#[test]
fn whitespace_agrees_with_std_on_every_char() {
    for code in 0u32..=0x10FFFF {
        if let Some(c) = char::from_u32(code) {
            assert_eq!(is_whitespace(c), c.is_whitespace(), "U+{code:04X}");
        }
    }
}
