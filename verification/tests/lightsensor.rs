use viewtree::lightsensor::kobo::parse_level;

#[test]
fn parse_level_reads_a_numeral_with_its_line_end_test() {
    assert_eq!(parse_level("120\n"), Some(120));
    assert_eq!(parse_level("0\n"), Some(0));
    assert_eq!(parse_level("65535\n"), Some(65535));
    assert_eq!(parse_level("7"), Some(7));
    assert_eq!(parse_level("0042 \t\r\n"), Some(42));
}

#[test]
fn parse_level_accepts_a_plus_sign_test() {
    assert_eq!(parse_level("+15\n"), Some(15));
    assert_eq!(parse_level("+"), None);
    assert_eq!(parse_level("++1"), None);
}

#[test]
fn parse_level_refuses_what_is_no_numeral_test() {
    assert_eq!(parse_level(""), None);
    assert_eq!(parse_level("\n"), None);
    assert_eq!(parse_level(" 12"), None);
    assert_eq!(parse_level("12a"), None);
    assert_eq!(parse_level("-3"), None);
    assert_eq!(parse_level("1 2"), None);
    assert_eq!(parse_level("1.5"), None);
}

#[test]
fn parse_level_refuses_what_does_not_fit_test() {
    assert_eq!(parse_level("65536"), None);
    assert_eq!(parse_level("99999999999999999999"), None);
    assert_eq!(parse_level("000065535"), Some(65535));
}

#[test]
fn parse_level_agrees_with_the_standard_parser_test() {
    let samples = ["120\n", "+7", "", "x", "65536", "65535", " 1", "1 ", "\u{a0}", "9\u{2003}"];
    for text in samples.iter() {
        let expected: Option<u16> = text.trim_end().parse().ok();
        assert_eq!(parse_level(text), expected);
    }
}
