use aynur_deploy::text;

#[test]
fn numbers_are_printed_as_by_std() {
    for number in [0u64, 7, 10, 99, 100, 1234567890, u64::MAX] {
        assert_eq!(text::decimal_text(number), format!("{number}"));
    }
    for number in [i64::MIN, -1, 0, 42, i64::MAX] {
        assert_eq!(text::signed_decimal_text(number), format!("{number}"));
    }
    for mode in [0u32, 0o7, 0o600, 0o644, 0o777] {
        assert_eq!(text::mode_octal_text(mode), format!("{mode:04o}"));
    }
    assert_eq!(text::exit_status_text(Some(-3)), format!("{:?}", Some(-3)));
    assert_eq!(text::exit_status_text(None), "None");
}

#[test]
fn white_space_is_trimmed_as_by_std() {
    for value in ["", "  ", " a ", "\u{3000}a b\u{2028}\n", "\u{200b}a", "a\u{85}", "\t\r\nx"] {
        assert_eq!(text::trim(value), value.trim(), "{value:?}");
    }
}

#[test]
fn control_characters_are_those_of_std() {
    for value in ["", "abc", "a\u{7f}", "\u{9f}", "\u{a0}", "tab\t", "\u{0}"] {
        assert_eq!(
            text::contains_control(value),
            value.chars().any(char::is_control),
            "{value:?}"
        );
    }
}

#[test]
fn texts_are_ordered_as_by_std() {
    let values = ["", "a", "ab", "b", "B", "\u{e9}", "\u{10000}", "a\u{ffff}"];
    for left in values {
        for right in values {
            assert_eq!(text::precedes(left, right), left < right, "{left:?} {right:?}");
            assert_eq!(text::text_eq(left, right), left == right);
        }
    }
}

#[test]
fn prefixes_and_lists_are_handled() {
    assert_eq!(text::strip_prefix("refs/tags/v1", "refs/tags/"), Some("v1".to_owned()));
    assert_eq!(text::strip_prefix("refs/heads/v1", "refs/tags/"), None);
    assert_eq!(text::strip_prefix("", "a"), None);
    let list = vec!["a".to_owned(), String::new(), "c".to_owned()];
    assert_eq!(text::join_texts(&list, ", "), "a, , c");
    assert_eq!(text::join_texts(&Vec::new(), ", "), "");
}

#[test]
fn object_identifiers_have_forty_hexadecimal_digits() {
    let lower = "0123456789abcdef0123456789abcdef01234567";
    let upper = "0123456789ABCDEF0123456789abcdef01234567";
    assert!(text::is_lower_object_id(lower));
    assert!(!text::is_lower_object_id(upper));
    assert!(text::is_object_id(upper));
    assert!(!text::is_object_id(&lower[1..]));
    assert!(!text::is_object_id("g123456789abcdef0123456789abcdef01234567"));
}
