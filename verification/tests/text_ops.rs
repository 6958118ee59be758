use autogram::text::{chars_of, contains_seq, lines_starting_with, remove_char, replace_char, str_contains, str_starts_with, string_of, count_of};

#[test]
fn chars_round_trip() {
    let v = chars_of("注册码 ab");
    assert_eq!(v, vec!['注', '册', '码', ' ', 'a', 'b']);
    assert_eq!(string_of(&v), "注册码 ab");
}

#[test]
fn substring_search() {
    assert!(str_contains("自由注册已开启", "已开启"));
    assert!(!str_contains("自由注册", "已开启"));
    assert!(str_contains("abc", ""));
    assert!(!str_contains("", "a"));
    assert!(contains_seq(&chars_of("aab"), &chars_of("ab")));
}

#[test]
fn prefixes() {
    assert!(str_starts_with("/start code", "/start"));
    assert!(!str_starts_with("/sta", "/start"));
    assert!(str_starts_with("x", ""));
}

#[test]
fn remove_replace_count() {
    assert_eq!(string_of(&remove_char(&chars_of(" a b "), ' ')), "ab");
    assert_eq!(string_of(&replace_char(&chars_of("ab*d"), '*', &chars_of("XY"))), "abXYd");
    assert_eq!(count_of(&chars_of("a**b*"), '*'), 3);
}

#[test]
fn lines_with_prefix() {
    let got = lines_starting_with("hello\nCODE-1\nxCODE-2\nCODE-3", "CODE");
    assert_eq!(got, vec!["CODE-1".to_string(), "CODE-3".to_string()]);
    assert_eq!(lines_starting_with("a\n\nb", ""), vec!["a".to_string(), "".to_string(), "b".to_string()]);
    assert_eq!(lines_starting_with("", ""), vec!["".to_string()]);
    assert_eq!(lines_starting_with("CODE\n", "CODE"), vec!["CODE".to_string()]);
}
