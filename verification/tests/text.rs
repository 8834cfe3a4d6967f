use autolon::text::{
    chars_eq, chars_of, char_is_whitespace, decimal_string, eq_ignore_ascii_case, has_word,
    push_decimal, push_str, split_complete_lines, str_eq, to_ascii_lowercase, trim, trim_chars,
};

#[test]
fn decimal_strings() {
    assert_eq!(decimal_string(0), "0");
    assert_eq!(decimal_string(7), "7");
    assert_eq!(decimal_string(1234567890), "1234567890");
    assert_eq!(decimal_string(u64::MAX), "18446744073709551615");
}

#[test]
fn push_helpers_append() {
    let mut v = vec!['x'];
    push_decimal(405, &mut v);
    push_str(&mut v, "ms");
    assert_eq!(v.iter().collect::<String>(), "x405ms");
    assert_eq!(chars_of("héllo"), vec!['h', 'é', 'l', 'l', 'o']);
}

#[test]
fn equality_helpers() {
    assert!(str_eq("abc", "abc"));
    assert!(!str_eq("abc", "abd"));
    assert!(chars_eq(&['a', 'b'], &['a', 'b']));
    assert!(!chars_eq(&['a'], &['a', 'b']));
    assert!(eq_ignore_ascii_case("Shift+F6", "shift+f6"));
    assert!(!eq_ignore_ascii_case("F6", "F7"));
    assert!(!eq_ignore_ascii_case("É", "é"));
}

#[test]
fn lowercase_is_ascii_only() {
    assert_eq!(to_ascii_lowercase("Slow FAST Ünï"), "slow fast Ünï");
}

#[test]
fn trimming() {
    assert_eq!(trim("  a b \n"), "a b");
    assert_eq!(trim("\u{3000}x\u{a0}"), "x");
    assert_eq!(trim("   "), "");
    assert_eq!(trim_chars(&[' ', 'q', '\t']), vec!['q']);
    assert!(char_is_whitespace('\u{2028}'));
    assert!(!char_is_whitespace('x'));
}

#[test]
fn words() {
    assert!(has_word("wheel autolon-input users", "autolon-input"));
    assert!(!has_word("wheel autolon-inputs", "autolon-input"));
    assert!(!has_word("wheel", ""));
    assert!(has_word("autolon-input", "autolon-input"));
}

#[test]
fn complete_lines_and_rest() {
    let (lines, rest) = split_complete_lines("{\"a\":1}\n{\"b\":2}\r\n{\"c\"");
    assert_eq!(lines, vec!["{\"a\":1}".to_string(), "{\"b\":2}\r".to_string()]);
    assert_eq!(rest, "{\"c\"");
    let (lines, rest) = split_complete_lines("no newline");
    assert!(lines.is_empty());
    assert_eq!(rest, "no newline");
    let (lines, rest) = split_complete_lines("\n\n");
    assert_eq!(lines, vec![String::new(), String::new()]);
    assert_eq!(rest, "");
}
