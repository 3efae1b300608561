use chat_console::number::{decimal_chars, parse_usize, push_decimal};

fn chars(text: &str) -> Vec<char> {
    text.chars().collect()
}

fn text(chars: Vec<char>) -> String {
    chars.into_iter().collect()
}

#[test]
fn decimal_writes_numbers_without_leading_zeros() {
    assert_eq!(text(decimal_chars(0)), "0");
    assert_eq!(text(decimal_chars(7)), "7");
    assert_eq!(text(decimal_chars(10)), "10");
    assert_eq!(text(decimal_chars(12345)), "12345");
    assert_eq!(text(decimal_chars(1000000)), "1000000");
    assert_eq!(text(decimal_chars(usize::MAX)), usize::MAX.to_string());
}

#[test]
fn push_decimal_adds_at_the_end() {
    let mut out = chars("n=");
    push_decimal(&mut out, 42);
    assert_eq!(text(out), "n=42");
}

#[test]
fn parse_usize_reads_digits_with_an_optional_plus() {
    assert_eq!(parse_usize(&chars("0")), Some(0));
    assert_eq!(parse_usize(&chars("42")), Some(42));
    assert_eq!(parse_usize(&chars("+5")), Some(5));
    assert_eq!(parse_usize(&chars("007")), Some(7));
    assert_eq!(parse_usize(&chars(&usize::MAX.to_string())), Some(usize::MAX));
}

#[test]
fn parse_usize_refuses_everything_else() {
    assert_eq!(parse_usize(&chars("")), None);
    assert_eq!(parse_usize(&chars("+")), None);
    assert_eq!(parse_usize(&chars("-1")), None);
    assert_eq!(parse_usize(&chars("++1")), None);
    assert_eq!(parse_usize(&chars("12a")), None);
    assert_eq!(parse_usize(&chars("a12")), None);
    assert_eq!(parse_usize(&chars(" 1")), None);
    assert_eq!(parse_usize(&chars("1 ")), None);
    assert_eq!(parse_usize(&chars("١٢")), None);
    assert_eq!(parse_usize(&chars("1.5")), None);
}

#[test]
fn parse_usize_refuses_what_does_not_fit() {
    let mut big = usize::MAX.to_string();
    big.push('0');
    assert_eq!(parse_usize(&chars(&big)), None);
    let next = (usize::MAX as u128 + 1).to_string();
    assert_eq!(parse_usize(&chars(&next)), None);
    assert_eq!(parse_usize(&chars("99999999999999999999999999999999999999999")), None);
}

#[test]
fn parse_usize_agrees_with_the_standard_library() {
    for t in ["", "+", "0", "+0", "-0", "12", "0012", "1_000", "18446744073709551615", "18446744073709551616", "x"] {
        assert_eq!(parse_usize(&chars(t)), t.parse::<usize>().ok(), "{:?}", t);
    }
}

#[test]
fn decimal_is_read_back() {
    for n in [0usize, 1, 9, 10, 99, 100, 4096, usize::MAX] {
        assert_eq!(parse_usize(&decimal_chars(n)), Some(n));
    }
}
