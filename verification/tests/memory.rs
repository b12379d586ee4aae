use dockeye::{convert_memory, try_convert_memory, MemoryError};

fn value(s: &str) -> u64 {
    match convert_memory(s) {
        Ok(v) => v,
        Err(e) => panic!("{:?} for {:?}", e, s),
    }
}

fn is_bad_number(s: &str) -> bool {
    matches!(convert_memory(s), Err(MemoryError::InvalidNumber))
}

fn bad_unit(s: &str) -> Option<String> {
    match convert_memory(s) {
        Err(MemoryError::InvalidUnit { unit }) => Some(unit),
        _ => None,
    }
}

#[test]
fn plain_number_is_bytes() {
    assert_eq!(value("0"), 0);
    assert_eq!(value("1024"), 1024);
    assert_eq!(value("18446744073709551615"), u64::MAX);
}

#[test]
fn units_multiply_by_powers_of_thousand() {
    assert_eq!(value("7b"), 7);
    assert_eq!(value("1k"), 1_000);
    assert_eq!(value("100M"), 100_000_000);
    assert_eq!(value("1G"), 1_000_000_000);
    assert_eq!(value("2t"), 2_000_000_000_000);
}

#[test]
fn units_ignore_case() {
    for (lower, upper) in [("5b", "5B"), ("5k", "5K"), ("5m", "5M"), ("5g", "5G"), ("5t", "5T")] {
        assert_eq!(value(lower), value(upper));
    }
}

#[test]
fn products_saturate() {
    assert_eq!(value("18446744073709551615k"), u64::MAX);
    assert_eq!(value("20000000t"), u64::MAX);
    assert_eq!(value("18446744t"), 18_446_744_000_000_000_000);
    assert_eq!(value("18446745t"), u64::MAX);
}

#[test]
fn bad_numbers() {
    assert!(is_bad_number(""));
    assert!(is_bad_number("k"));
    assert!(is_bad_number("18446744073709551616"));
    assert!(is_bad_number("18446744073709551616k"));
    assert!(is_bad_number("+5k"));
    assert!(is_bad_number("-5"));
}

#[test]
fn bad_units() {
    assert_eq!(bad_unit("5kb").as_deref(), Some("kb"));
    assert_eq!(bad_unit("5 k").as_deref(), Some(" k"));
    assert_eq!(bad_unit("12x").as_deref(), Some("x"));
    assert_eq!(bad_unit("1.5G").as_deref(), Some(".5G"));
}

#[test]
fn kelvin_sign_lowercases_to_k() {
    assert_eq!(value("5\u{212A}"), 5_000);
}

#[test]
fn non_ascii_numerals_are_numbers_that_do_not_parse() {
    // U+0663 ARABIC-INDIC DIGIT THREE is numeric but not an ASCII digit.
    assert!(is_bad_number("\u{663}"));
    assert!(is_bad_number("\u{663}\u{663}k"));
}

#[test]
fn cut_inside_a_character_is_refused() {
    // one two-byte numeral, then a unit: the cut at byte 1 splits the numeral
    assert!(try_convert_memory("\u{663}k").is_none());
    assert!(matches!(try_convert_memory("1G"), Some(Ok(1_000_000_000))));
    assert!(matches!(
        try_convert_memory("\u{663}\u{663}k"),
        Some(Err(MemoryError::InvalidNumber))
    ));
}

#[test]
fn error_messages() {
    match convert_memory("10X") {
        Err(e) => assert_eq!(e.message(), "invalid unit: X"),
        Ok(v) => panic!("unexpected {}", v),
    }
    match convert_memory("1x2g") {
        Err(e) => assert_eq!(e.message(), "invalid unit: x2g"),
        Ok(v) => panic!("unexpected {}", v),
    }
    match convert_memory("") {
        Err(e) => assert_eq!(e.message(), "parsing memory number failed"),
        Ok(v) => panic!("unexpected {}", v),
    }
}
