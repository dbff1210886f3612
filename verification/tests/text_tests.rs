use pnw_launcher::text::{
    chars_of, clone_strings, eq_ignoring_ascii_case, is_white_space, parse_u64, piece_of,
    push_decimal, same_text, trim,
};

fn decimal_of(n: u64) -> String {
    let mut s = String::new();
    push_decimal(&mut s, n);
    s
}

#[test]
fn chars_of_gives_the_characters_in_order() {
    assert_eq!(chars_of("a/é:"), vec!['a', '/', 'é', ':']);
    assert_eq!(chars_of(""), Vec::<char>::new());
}

#[test]
fn piece_of_counts_characters_not_bytes() {
    assert_eq!(piece_of("héllo wörld", 1, 5), "éllo");
    assert_eq!(piece_of("abc", 3, 3), "");
    assert_eq!(piece_of("abc", 0, 3), "abc");
}

#[test]
fn clone_strings_copies_each_string() {
    let v = vec!["a".to_string(), "".to_string(), "çà".to_string()];
    assert_eq!(clone_strings(&v), v);
}

#[test]
fn comparison_ignores_the_case_of_ascii_letters_only() {
    let eq = |a: &str, b: &str| eq_ignoring_ascii_case(&chars_of(a), &chars_of(b));
    assert!(eq("Saves", "saves"));
    assert!(eq("SAVES", "sAvEs"));
    assert!(eq("", ""));
    assert!(!eq("Saves", "Save"));
    assert!(!eq("Saves", "Savez"));
    assert!(!eq("É", "é"));
    assert!(!eq("@", "`"));
    assert!(!eq("[", "{"));
    assert!(eq("Z9-é", "z9-é"));
}

#[test]
fn same_text_is_exact() {
    assert!(same_text("Game.exe", "Game.exe"));
    assert!(!same_text("Game.exe", "game.exe"));
    assert!(!same_text("a", "ab"));
    assert!(same_text("", ""));
}

#[test]
fn trim_removes_white_space_at_both_ends() {
    assert_eq!(trim("  1.2.0\n"), "1.2.0");
    assert_eq!(trim("\t\r\n v 1 \u{a0}\u{3000}"), "v 1");
    assert_eq!(trim("1.2.0"), "1.2.0");
    assert_eq!(trim(" \n "), "");
    assert_eq!(trim(""), "");
    assert_eq!(trim("a b"), "a b");
}

#[test]
fn white_space_is_what_unicode_says() {
    for code in 0..=0x10FFFFu32 {
        if let Some(c) = char::from_u32(code) {
            assert_eq!(is_white_space(c), c.is_whitespace(), "U+{code:04X}");
        }
    }
}

#[test]
fn white_space_by_example() {
    for c in [' ', '\t', '\n', '\r', '\u{b}', '\u{c}', '\u{85}', '\u{a0}', '\u{2028}', '\u{3000}'] {
        assert!(is_white_space(c));
    }
    for c in ['a', '0', '_', '\u{8}', '\u{e}', '\u{200b}', '\u{feff}', '\u{180e}'] {
        assert!(!is_white_space(c));
    }
}

#[test]
fn trim_agrees_with_the_standard_library() {
    for s in ["", " ", "x", " x", "x ", "\u{2003}é \u{85}", "\u{200b}z\u{200b}", "\u{feff}a"] {
        assert_eq!(trim(s), s.trim());
    }
}

#[test]
fn decimal_has_no_leading_zeros() {
    assert_eq!(decimal_of(0), "0");
    assert_eq!(decimal_of(7), "7");
    assert_eq!(decimal_of(10), "10");
    assert_eq!(decimal_of(1000), "1000");
    assert_eq!(decimal_of(1234567890), "1234567890");
    assert_eq!(decimal_of(u64::MAX), "18446744073709551615");
}

#[test]
fn push_decimal_appends() {
    let mut s = "n=".to_string();
    push_decimal(&mut s, 42);
    assert_eq!(s, "n=42");
}

#[test]
fn parse_u64_reads_digits() {
    assert_eq!(parse_u64("0"), Some(0));
    assert_eq!(parse_u64("5000"), Some(5000));
    assert_eq!(parse_u64("007"), Some(7));
    assert_eq!(parse_u64("+12"), Some(12));
    assert_eq!(parse_u64("18446744073709551615"), Some(u64::MAX));
}

#[test]
fn parse_u64_rejects_everything_else() {
    assert_eq!(parse_u64(""), None);
    assert_eq!(parse_u64("+"), None);
    assert_eq!(parse_u64("-1"), None);
    assert_eq!(parse_u64("++1"), None);
    assert_eq!(parse_u64(" 1"), None);
    assert_eq!(parse_u64("1 "), None);
    assert_eq!(parse_u64("12a"), None);
    assert_eq!(parse_u64("1.5"), None);
    assert_eq!(parse_u64("٣"), None);
    assert_eq!(parse_u64("18446744073709551616"), None);
    assert_eq!(parse_u64("99999999999999999999999"), None);
    assert_eq!(parse_u64("184467440737095516150"), None);
}

#[test]
fn parse_u64_agrees_with_the_standard_library() {
    for s in ["", "+", "+0", "-0", "42", "+42", "4 2", "0x10", "18446744073709551615", "18446744073709551616"] {
        assert_eq!(parse_u64(s), s.parse::<u64>().ok());
    }
}

#[test]
fn decimal_and_parse_are_inverse() {
    for n in [0u64, 1, 9, 10, 99, 100, 65_536, 4_294_967_296, u64::MAX - 1, u64::MAX] {
        assert_eq!(parse_u64(&decimal_of(n)), Some(n));
    }
}

#[test]
fn comparison_agrees_with_the_standard_library_on_ascii() {
    for a in 0u8..128 {
        for b in 0u8..128 {
            let (x, y) = ((a as char).to_string(), (b as char).to_string());
            assert_eq!(
                eq_ignoring_ascii_case(&chars_of(&x), &chars_of(&y)),
                x.eq_ignore_ascii_case(&y),
                "{a} {b}"
            );
        }
    }
    for (x, y) in [("Straße", "STRASSE"), ("ÄB", "äb"), ("Ab", "aB"), ("K", "\u{212a}"), ("a", "ab")] {
        assert_eq!(eq_ignoring_ascii_case(&chars_of(x), &chars_of(y)), x.eq_ignore_ascii_case(y));
    }
}
