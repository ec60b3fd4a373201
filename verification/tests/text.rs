use chat_cafe::text::{
    decimal_chars, sorted_strings, str_eq_ignore_ascii_case, str_is_blank, str_lt,
    str_starts_with,
};

#[test]
fn ascii_case_folding_only() {
    assert!(str_eq_ignore_ascii_case("Hello", "hELLO"));
    assert!(!str_eq_ignore_ascii_case("Hello", "Hell"));
    assert!(!str_eq_ignore_ascii_case("Ä", "ä"));
    assert!(str_eq_ignore_ascii_case("Ä-x", "Ä-X"));
}

#[test]
fn blank_means_only_white_space() {
    assert!(str_is_blank(""));
    assert!(str_is_blank(" \t\n\u{00a0}\u{2003}"));
    assert!(!str_is_blank(" x "));
    assert!(!str_is_blank("\u{200b}"));
}

#[test]
fn ordering_and_prefixes() {
    assert!(str_lt("Bob", "bob"));
    assert!(str_lt("bob", "bobby"));
    assert!(!str_lt("bob", "bob"));
    assert!(str_lt("", "a"));
    assert!(str_starts_with("bobby", "bob"));
    assert!(!str_starts_with("bo", "bob"));
    let v = vec!["pear".to_string(), "Apple".to_string(), "apple".to_string(), "éclair".to_string()];
    let mut expected = v.clone();
    expected.sort();
    assert_eq!(sorted_strings(&v), expected);
}

#[test]
fn decimal_notation() {
    assert_eq!(decimal_chars(0), vec!['0']);
    assert_eq!(decimal_chars(1203).into_iter().collect::<String>(), "1203");
}
