use monkey_lang::text::{chars_of, parse_decimal, push_decimal, string_of};

#[test]
fn characters_of_a_text() {
    assert_eq!(chars_of(""), Vec::<char>::new());
    assert_eq!(chars_of("a\u{e9}\n"), vec!['a', '\u{e9}', '\n']);
}

#[test]
fn part_of_a_text() {
    let chars = vec!['a', 'b', 'c', 'd'];
    assert_eq!(string_of(&chars, 1, 3), "bc");
    assert_eq!(string_of(&chars, 0, 4), "abcd");
    assert_eq!(string_of(&chars, 2, 2), "");
}

#[test]
fn decimal_of_a_number() {
    let cases = [(0usize, "0"), (7, "7"), (10, "10"), (42, "42"), (1234567890, "1234567890")];
    for (n, expected) in cases {
        let mut text = "n=".to_string();
        push_decimal(&mut text, n);
        assert_eq!(text, format!("n={}", expected));
    }
    let mut text = String::new();
    push_decimal(&mut text, usize::MAX);
    assert_eq!(text, format!("{}", usize::MAX));
}

#[test]
fn number_of_a_decimal() {
    assert_eq!(parse_decimal("0"), Some(0));
    assert_eq!(parse_decimal("5"), Some(5));
    assert_eq!(parse_decimal("007"), Some(7));
    assert_eq!(parse_decimal("1234567890"), Some(1234567890));
    assert_eq!(parse_decimal(&format!("{}", usize::MAX)), Some(usize::MAX));
}

#[test]
fn no_number() {
    assert_eq!(parse_decimal(""), None);
    assert_eq!(parse_decimal("12a"), None);
    assert_eq!(parse_decimal("a12"), None);
    assert_eq!(parse_decimal("+5"), None);
    assert_eq!(parse_decimal("-5"), None);
    assert_eq!(parse_decimal(" 5"), None);
}

#[test]
fn number_too_large() {
    assert_eq!(parse_decimal(&format!("{}0", usize::MAX)), None);
    assert_eq!(parse_decimal("340282366920938463463374607431768211456"), None);
    let max = format!("{}", usize::MAX);
    let mut digits: Vec<u8> = max.into_bytes();
    let last = digits.len() - 1;
    digits[last] += 1;
    assert_eq!(parse_decimal(&String::from_utf8(digits).unwrap()), None);
}
