use verify_bot::text::{
    byte_cut, byte_len_upto, contains_str, i64_to_decimal, parse_u64, str_lt, to_ascii_upper,
    u64_to_decimal, Cut,
};

#[test]
fn decimal_rendering() {
    assert_eq!(u64_to_decimal(0), "0");
    assert_eq!(u64_to_decimal(1234567890), "1234567890");
    assert_eq!(u64_to_decimal(u64::MAX), u64::MAX.to_string());
    assert_eq!(i64_to_decimal(-42), "-42");
    assert_eq!(i64_to_decimal(i64::MIN), i64::MIN.to_string());
}

#[test]
fn decimal_parses_back() {
    for n in [0u64, 7, 10, 99, 1000, 123456789012345678, u64::MAX] {
        assert_eq!(parse_u64(&u64_to_decimal(n)), Some(n));
    }
}

#[test]
fn parsing_follows_std() {
    for s in ["", "+", "-", "-1", "+12", "007", "12a", "18446744073709551615", "18446744073709551616", " 1"] {
        assert_eq!(parse_u64(s), s.parse::<u64>().ok(), "input {:?}", s);
    }
}

#[test]
fn ascii_upper_case() {
    assert_eq!(to_ascii_upper("pvp"), "PVP");
    assert_eq!(to_ascii_upper("Merit"), "MERIT");
    assert_eq!(to_ascii_upper("a-z é"), "A-Z é");
}

#[test]
fn substring_search() {
    assert!(contains_str("error user_not_found here", "user_not_found"));
    assert!(!contains_str("user_not_foun", "user_not_found"));
    assert!(contains_str("abc", ""));
    assert!(!contains_str("", "a"));
}

#[test]
fn order_of_texts() {
    assert!(str_lt("2020-01-01", "2021-01-01"));
    assert!(!str_lt("b", "a"));
    assert!(str_lt("a", "ab"));
    assert!(!str_lt("ab", "ab"));
    assert_eq!(str_lt("é", "z"), "é" < "z");
}

#[test]
fn byte_lengths() {
    assert_eq!(byte_len_upto("héllo", 10), Some(6));
    assert_eq!(byte_len_upto("héllo", 5), None);
    assert!(matches!(byte_cut("abc", 3), Cut::Whole));
    assert!(matches!(byte_cut("abcd", 3), Cut::At(3)));
    assert!(matches!(byte_cut("aéb", 2), Cut::Inside));
    assert!(matches!(byte_cut("aéb", 3), Cut::At(2)));
}
