use echokit::text::{
    append_hex_byte, chars_of, decimal_text, digit_of, find_bytes, find_chars, is_whitespace,
    parse_unsigned, prefix_at, same_text, signed_decimal_text, skip_white, skip_word, trim_chars,
};

fn chars(text: &str) -> Vec<char> {
    text.chars().collect()
}

#[test]
fn the_first_place_is_found() {
    assert_eq!(find_bytes(b"abcabc", b"ca"), Some(2));
    assert_eq!(find_bytes(b"aaab", b"aab"), Some(1));
    assert_eq!(find_bytes(b"abc", b"abcd"), None);
    assert_eq!(find_bytes(b"abc", b"x"), None);
    assert_eq!(find_bytes(b"", b""), Some(0));
    assert_eq!(find_chars(&chars("xäöü"), &chars("öü")), Some(2));
    assert_eq!(find_chars(&chars("ab"), &chars("")), Some(0));
    assert_eq!(find_chars(&chars("ab"), &chars("c")), None);
}

#[test]
fn a_pattern_stands_at_its_place_only() {
    assert!(prefix_at(&chars("abc"), &chars("bc"), 1));
    assert!(!prefix_at(&chars("abc"), &chars("bc"), 2));
    assert!(!prefix_at(&chars("abc"), &chars("a"), 9));
}

#[test]
fn texts_are_compared_by_their_characters() {
    assert!(same_text("é", "é"));
    assert!(!same_text("a", "ab"));
    assert!(!same_text("ab", "a"));
    assert_eq!(chars_of("aé"), vec!['a', 'é']);
}

#[test]
fn white_space_is_what_std_takes_for_it() {
    for code in 0..0x11_0000u32 {
        if let Some(c) = char::from_u32(code) {
            assert_eq!(is_whitespace(c), c.is_whitespace());
        }
    }
}

#[test]
fn white_space_is_cut_off_as_std_does() {
    for text in ["", " ", " a b ", "\t\u{2003}x\u{a0}", "abc", "\r\n 12\u{3000}"] {
        let all = chars(text);
        let trimmed: String = trim_chars(&all).iter().collect();
        assert_eq!(trimmed, text.trim());
    }
    assert_eq!(skip_white(&chars("  a b"), 0), 2);
    assert_eq!(skip_word(&chars("  ab c"), 2), 4);
}

#[test]
fn numbers_are_read_as_std_reads_them() {
    for text in ["", "+", "-1", "0", "+7", "++7", "007", "255", "256", "99999999999999999999999", "1a", "ff", "FF", "é"] {
        let all = chars(text);
        assert_eq!(parse_unsigned(&all, 10, 255), text.parse::<u8>().ok().map(u64::from));
        assert_eq!(parse_unsigned(&all, 10, u64::MAX), text.parse::<u64>().ok());
        assert_eq!(parse_unsigned(&all, 16, 255), u8::from_str_radix(text, 16).ok().map(u64::from));
    }
    assert_eq!(digit_of('z'), 35);
    assert_eq!(digit_of('!'), 36);
}

#[test]
fn numbers_are_written_as_std_writes_them() {
    for n in [0u64, 9, 10, 120, 65535, u64::MAX] {
        assert_eq!(decimal_text(n), n.to_string());
        assert_eq!(parse_unsigned(&chars(&decimal_text(n)), 10, u64::MAX), Some(n));
    }
    for n in [0i32, 258, -1, i32::MIN, i32::MAX] {
        assert_eq!(signed_decimal_text(n), n.to_string());
    }
}

#[test]
fn bytes_are_written_in_hexadecimal_digits() {
    for b in 0..=255u8 {
        let mut text = "x".to_string();
        append_hex_byte(&mut text, b, true);
        assert_eq!(text, format!("x{:02X}", b));
        assert_eq!(parse_unsigned(&chars(&text[1..]), 16, 255), Some(b as u64));
        let mut text = String::new();
        append_hex_byte(&mut text, b, false);
        assert_eq!(text, format!("{:02x}", b));
    }
}
