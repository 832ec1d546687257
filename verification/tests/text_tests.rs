use bench_harness::text::{
    decimal_string, decimal_width, parse_count, same_text, zero_padded_string,
};

#[test]
fn decimal_rendering_matches_the_standard_one() {
    for n in [0u64, 1, 7, 9, 10, 11, 99, 100, 255, 12345, 4294967295, u64::MAX] {
        assert_eq!(decimal_string(n), format!("{}", n));
        assert_eq!(decimal_width(n), format!("{}", n).len());
    }
    assert_eq!(decimal_string(12345), "12345");
    assert_eq!(decimal_width(u64::MAX), 20);
}

#[test]
fn padding_to_three_digits() {
    assert_eq!(zero_padded_string(5, 3), "005");
    assert_eq!(zero_padded_string(0, 3), "000");
    assert_eq!(zero_padded_string(42, 3), "042");
    assert_eq!(zero_padded_string(999, 3), "999");
    assert_eq!(zero_padded_string(1000, 3), "1000");
    for n in [0u64, 9, 10, 99, 100, 999, 1000, 123456] {
        assert_eq!(zero_padded_string(n, 3), format!("{:03}", n));
        assert_eq!(zero_padded_string(n, 8), format!("{:08}", n));
        assert_eq!(zero_padded_string(n, 0), format!("{}", n));
    }
}

#[test]
fn counts_are_read_as_the_standard_library_reads_them() {
    let samples = [
        "0", "1", "42", "+42", "007", "4294967295", "4294967296", "99999999999999999999999",
        "", "+", "-", "-1", "-0", "++1", "+-1", " 1", "1 ", "1a", "a1", "0x10", "1_000", "1.5",
        "\u{ff11}", "\u{661}\u{662}\u{663}", "+0", "00000000000000000000000000000001",
    ];
    for text in samples {
        assert_eq!(parse_count(text), text.parse::<u32>().ok(), "input {:?}", text);
    }
}

#[test]
fn counts_with_expected_values() {
    assert_eq!(parse_count("42"), Some(42));
    assert_eq!(parse_count("+42"), Some(42));
    assert_eq!(parse_count("4294967295"), Some(u32::MAX));
    assert_eq!(parse_count("4294967296"), None);
    assert_eq!(parse_count(""), None);
    assert_eq!(parse_count("+"), None);
    assert_eq!(parse_count("-5"), None);
    assert_eq!(parse_count("12x"), None);
}

#[test]
fn texts_are_compared_by_content() {
    assert!(same_text("jpg", "jpg"));
    assert!(!same_text("jpg", "jpeg"));
    assert!(!same_text("jpg", "JPG"));
    assert!(same_text("", ""));
    assert!(!same_text("", " "));
}

#[test]
fn a_rendered_count_is_read_back() {
    for n in [0u32, 1, 9, 10, 99, 100, 65535, 1_000_000, u32::MAX] {
        assert_eq!(parse_count(&decimal_string(n as u64)), Some(n));
        assert_eq!(parse_count(&zero_padded_string(n as u64, 12)), Some(n));
    }
}
