use meteoritus::dec::{parse_u64_dec, u64_to_dec};

#[test]
fn renders_decimal_values() {
    assert_eq!(u64_to_dec(0), "0");
    assert_eq!(u64_to_dec(7), "7");
    assert_eq!(u64_to_dec(10), "10");
    assert_eq!(u64_to_dec(5242880), "5242880");
    assert_eq!(u64_to_dec(u64::MAX), "18446744073709551615");
}

#[test]
fn parses_decimal_values() {
    assert_eq!(parse_u64_dec("0"), Some(0));
    assert_eq!(parse_u64_dec("10"), Some(10));
    assert_eq!(parse_u64_dec("007"), Some(7));
    assert_eq!(parse_u64_dec("18446744073709551615"), Some(u64::MAX));
}

#[test]
fn rejects_bad_decimal_values() {
    assert_eq!(parse_u64_dec(""), None);
    assert_eq!(parse_u64_dec("12a"), None);
    assert_eq!(parse_u64_dec("+5"), None);
    assert_eq!(parse_u64_dec("-5"), None);
    assert_eq!(parse_u64_dec(" 5"), None);
    assert_eq!(parse_u64_dec("18446744073709551616"), None);
}

#[test]
fn print_then_parse_round_trips() {
    for n in [0u64, 1, 9, 10, 99, 1024, 5242880, u64::MAX] {
        assert_eq!(parse_u64_dec(&u64_to_dec(n)), Some(n));
    }
}
