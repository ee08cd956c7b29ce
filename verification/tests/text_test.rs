use instructions::text::{i64_string, parse_u64, u64_string};

#[test]
fn decimal_rendering_matches_the_usual_notation() {
    assert_eq!(u64_string(0), "0");
    assert_eq!(u64_string(7), "7");
    assert_eq!(u64_string(1234), "1234");
    assert_eq!(u64_string(18446744073709551615), "18446744073709551615");
    assert_eq!(i64_string(-42), "-42");
    assert_eq!(i64_string(0), "0");
    assert_eq!(i64_string(i64::MIN), "-9223372036854775808");
}

#[test]
fn parsing_accepts_exactly_well_formed_numerals() {
    assert_eq!(parse_u64("0"), Some(0));
    assert_eq!(parse_u64("1234"), Some(1234));
    assert_eq!(parse_u64("+55"), Some(55));
    assert_eq!(parse_u64("18446744073709551615"), Some(u64::MAX));
    assert_eq!(parse_u64("18446744073709551616"), None);
    assert_eq!(parse_u64(""), None);
    assert_eq!(parse_u64("+"), None);
    assert_eq!(parse_u64("12a"), None);
    assert_eq!(parse_u64("-3"), None);
}

#[test]
fn rendering_then_parsing_gives_the_number_back() {
    for n in [0u64, 1, 9, 10, 99, 100, 4096, u64::MAX] {
        assert_eq!(parse_u64(&u64_string(n)), Some(n));
    }
}
