use typing_test::text::{chars_of, decimal_string, pad_right, text_less};

#[test]
fn decimal_numerals() {
    assert_eq!(decimal_string(0), "0");
    assert_eq!(decimal_string(7), "7");
    assert_eq!(decimal_string(120), "120");
    assert_eq!(decimal_string(u64::MAX), u64::MAX.to_string());
}

#[test]
fn padding_to_width() {
    assert_eq!(pad_right("ab", 5), "ab   ");
    assert_eq!(pad_right("abcdef", 3), "abcdef");
    assert_eq!(pad_right("é", 3), format!("{: <3}", "é"));
}

#[test]
fn lexicographic_order_matches_string_order() {
    let pairs = [("a", "b"), ("a", "ab"), ("", "a"), ("b", "a"), ("ab", "ab"), ("Z", "a"), ("é", "z")];
    for (a, b) in pairs {
        assert_eq!(text_less(a, b), a < b, "{} < {}", a, b);
    }
}

#[test]
fn characters_in_order() {
    assert_eq!(chars_of("héllo"), vec!['h', 'é', 'l', 'l', 'o']);
}
