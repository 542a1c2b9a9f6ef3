use notion_into_sqlite::text::{decimal_string, digit_char, escape, join_strings};

#[test]
fn escape_writes_each_double_quote_twice() {
    assert_eq!(escape(""), "");
    assert_eq!(escape("Name"), "Name");
    assert_eq!(escape("a\"b"), "a\"\"b");
    assert_eq!(escape("\""), "\"\"");
    assert_eq!(escape("\"\"x\""), "\"\"\"\"x\"\"");
    assert_eq!(escape("あ&\";#' f　_"), "あ&\"\";#' f　_");
    // as `str::replace` does
    for name in ["", "plain", "a\"b", "\"\"", "say \"hi\" twice \"", "é\"ü"] {
        assert_eq!(escape(name), name.replace('"', "\"\""));
    }
}

#[test]
fn join_puts_the_separator_between_the_parts() {
    assert_eq!(join_strings(&vec![], ", "), "");
    assert_eq!(join_strings(&vec!["a".to_string()], ", "), "a");
    assert_eq!(join_strings(&vec!["a".to_string(), "b".to_string()], ", "), "a, b");
    assert_eq!(
        join_strings(&vec!["".to_string(), "x".to_string(), "".to_string()], "-"),
        "-x-"
    );
    assert_eq!(join_strings(&vec!["a".to_string(), "b".to_string()], ""), "ab");
}

#[test]
fn decimal_writes_a_number_without_leading_zeros() {
    assert_eq!(decimal_string(0), "0");
    assert_eq!(decimal_string(7), "7");
    assert_eq!(decimal_string(10), "10");
    assert_eq!(decimal_string(1203), "1203");
    assert_eq!(decimal_string(u128::MAX), u128::MAX.to_string());
    for d in 0..10 {
        assert_eq!(digit_char(d).to_string(), d.to_string());
    }
}
