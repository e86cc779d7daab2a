use cardsync::parse_i64;

#[test]
fn parse_i64_plain() {
    assert_eq!(parse_i64("0"), Some(0));
    assert_eq!(parse_i64("123"), Some(123));
    assert_eq!(parse_i64("0042"), Some(42));
}

#[test]
fn parse_i64_signs() {
    assert_eq!(parse_i64("+42"), Some(42));
    assert_eq!(parse_i64("-7"), Some(-7));
    assert_eq!(parse_i64("-0"), Some(0));
}

#[test]
fn parse_i64_rejects_malformed() {
    assert_eq!(parse_i64(""), None);
    assert_eq!(parse_i64("+"), None);
    assert_eq!(parse_i64("-"), None);
    assert_eq!(parse_i64("abc"), None);
    assert_eq!(parse_i64("12a"), None);
    assert_eq!(parse_i64(" 12"), None);
    assert_eq!(parse_i64("1 2"), None);
    assert_eq!(parse_i64("--1"), None);
}

#[test]
fn parse_i64_range_edges() {
    assert_eq!(parse_i64("9223372036854775807"), Some(i64::MAX));
    assert_eq!(parse_i64("-9223372036854775808"), Some(i64::MIN));
    assert_eq!(parse_i64("9223372036854775808"), None);
    assert_eq!(parse_i64("-9223372036854775809"), None);
    assert_eq!(parse_i64("99999999999999999999999"), None);
}

#[test]
fn parse_i64_agrees_with_std() {
    let samples = [
        "0",
        "17",
        "+17",
        "-17",
        "007",
        "",
        "+",
        "-",
        "x",
        "9223372036854775807",
        "-9223372036854775808",
        "9223372036854775808",
        "12_3",
        "1.5",
    ];
    for s in samples {
        assert_eq!(parse_i64(s), s.parse::<i64>().ok(), "input {:?}", s);
    }
}
