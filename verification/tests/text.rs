use minishell::text::{decimal_string, decimal_width, from_chars, pad_left_str, to_chars};

#[test]
fn numerals() {
    assert_eq!(decimal_string(0), "0");
    assert_eq!(decimal_string(7), "7");
    assert_eq!(decimal_string(10), "10");
    assert_eq!(decimal_string(1234567890), "1234567890");
    assert_eq!(decimal_string(u64::MAX), "18446744073709551615");
}

#[test]
fn numeral_widths() {
    assert_eq!(decimal_width(0), 1);
    assert_eq!(decimal_width(9), 1);
    assert_eq!(decimal_width(10), 2);
    assert_eq!(decimal_width(99), 2);
    assert_eq!(decimal_width(100), 3);
    assert_eq!(decimal_width(u64::MAX), 20);
}

#[test]
fn numeral_width_is_the_numeral_length() {
    for n in [0u64, 1, 9, 10, 11, 99, 100, 101, 999, 1000, 65535, 1 << 32, u64::MAX - 1] {
        assert_eq!(decimal_width(n), decimal_string(n).len());
        assert_eq!(decimal_string(n), n.to_string());
    }
}

#[test]
fn padding_aligns_right() {
    assert_eq!(pad_left_str("ab", 5), "   ab");
    assert_eq!(pad_left_str("ab", 3), " ab");
}

#[test]
fn padding_never_cuts() {
    assert_eq!(pad_left_str("abcdef", 3), "abcdef");
    assert_eq!(pad_left_str("abc", 3), "abc");
    assert_eq!(pad_left_str("abc", 0), "abc");
    assert_eq!(pad_left_str("", 0), "");
}

#[test]
fn padding_of_nothing_is_all_spaces() {
    assert_eq!(pad_left_str("", 4), "    ");
}

#[test]
fn padding_counts_characters() {
    assert_eq!(pad_left_str("zoë", 4), " zoë");
    assert_eq!(pad_left_str("越南", 2), "越南");
}

#[test]
fn characters_in_and_out() {
    let v = to_chars("a越b");
    assert_eq!(v, vec!['a', '越', 'b']);
    assert_eq!(from_chars(&v, 0, 3), "a越b");
    assert_eq!(from_chars(&v, 1, 2), "越");
    assert_eq!(from_chars(&v, 2, 2), "");
    assert_eq!(to_chars(""), Vec::<char>::new());
}
