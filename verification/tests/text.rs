//! Text helpers.

use mlx::text::{
    chars_of, contains, decimal_i64, decimal_u64, ends_with, hex8, lex_less_eq, parse_u32, split,
    starts_with, string_of, to_ascii_lowercase, trim,
};

fn text(chars: &[char]) -> String {
    chars.iter().collect()
}

#[test]
fn numbers_print_in_base_ten_and_hex() {
    assert_eq!(text(&decimal_u64(0)), "0");
    assert_eq!(text(&decimal_u64(u64::MAX)), u64::MAX.to_string());
    assert_eq!(text(&decimal_i64(i64::MIN)), i64::MIN.to_string());
    assert_eq!(text(&decimal_i64(-42)), "-42");
    assert_eq!(text(&hex8(0xdead_beef)), "deadbeef");
    assert_eq!(text(&hex8(0x2a)), "0000002a");
}

#[test]
fn parsing_follows_str_parse() {
    for input in ["0", "42", "+7", "4294967295", "007", "", "+", "-1", "4294967296", "1 ", "1a"] {
        assert_eq!(parse_u32(&chars_of(input)), input.parse::<u32>().ok(), "{input:?}");
    }
}

#[test]
fn trimming_and_splitting_follow_str() {
    for input in ["", "  a b \t", "\u{3000}x\u{85}", "\n\n", "abc"] {
        assert_eq!(text(&trim(&chars_of(input))), input.trim(), "{input:?}");
    }
    for input in ["", "a.b", ".a..", "..", "abc"] {
        let parts: Vec<String> = split(&chars_of(input), '.').iter().map(|p| text(p)).collect();
        let expected: Vec<String> = input.split('.').map(str::to_string).collect();
        assert_eq!(parts, expected, "{input:?}");
    }
    assert_eq!(text(&to_ascii_lowercase(&chars_of("MiXeD É"))), "mixed É");
}

#[test]
fn searching_and_ordering() {
    let target = chars_of("aarch64-apple-darwin");
    assert!(contains(&target, &chars_of("apple")));
    assert!(contains(&target, &chars_of("")));
    assert!(!contains(&target, &chars_of("ios")));
    assert!(starts_with(&target, &chars_of("aarch64")));
    assert!(ends_with(&target, &chars_of("darwin")));
    assert!(!ends_with(&chars_of("in"), &chars_of("darwin")));
    for (a, b) in [("a", "b"), ("a", "ab"), ("", ""), ("b", "a"), ("é", "z"), ("Z", "a")] {
        assert_eq!(lex_less_eq(&chars_of(a), &chars_of(b)), a <= b, "{a:?} <= {b:?}");
    }
    assert_eq!(string_of(&['h', 'i']), "hi");
}
