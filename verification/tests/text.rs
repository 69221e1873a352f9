use leaguecord::text::{parse_unsigned_from, str_eq, str_starts_with, u64_to_decimal};

#[test]
fn decimal_of_small_and_large_numbers() {
    assert_eq!(u64_to_decimal(0), "0");
    assert_eq!(u64_to_decimal(7), "7");
    assert_eq!(u64_to_decimal(10), "10");
    assert_eq!(u64_to_decimal(12345), "12345");
    assert_eq!(u64_to_decimal(u64::MAX), "18446744073709551615");
}

#[test]
fn decimal_matches_format() {
    for n in [1u64, 9, 99, 100, 4096, 1_000_000_007, u64::MAX - 1] {
        assert_eq!(u64_to_decimal(n), format!("{n}"));
    }
}

#[test]
fn parse_accepts_what_std_accepts() {
    for s in ["0", "42", "+42", "007", "18446744073709551615", "", "+", "-1", "12a", " 1", "18446744073709551616", "++1"] {
        assert_eq!(parse_unsigned_from(s, 0, u64::MAX), s.parse::<u64>().ok(), "input {s:?}");
        assert_eq!(parse_unsigned_from(s, 0, 255).map(|v| v as u8), s.parse::<u8>().ok(), "input {s:?}");
    }
}

#[test]
fn parse_from_an_offset() {
    assert_eq!(parse_unsigned_from("g123", 1, u64::MAX), Some(123));
    assert_eq!(parse_unsigned_from("g", 1, u64::MAX), None);
    assert_eq!(parse_unsigned_from("256", 0, 255), None);
    assert_eq!(parse_unsigned_from("255", 0, 255), Some(255));
}

#[test]
fn decimal_reads_back() {
    for n in [0u64, 5, 123456789, u64::MAX] {
        let s = u64_to_decimal(n);
        assert_eq!(parse_unsigned_from(&s, 0, u64::MAX), Some(n));
    }
}

#[test]
fn prefixes_and_equality() {
    assert!(str_starts_with("group12", "group"));
    assert!(str_starts_with("g", "g"));
    assert!(!str_starts_with("g", "group"));
    assert!(str_starts_with("anything", ""));
    assert!(str_eq("abc", "abc"));
    assert!(!str_eq("abc", "abd"));
    assert!(!str_eq("abc", "ab"));
    assert!(str_eq("été", "été"));
}
