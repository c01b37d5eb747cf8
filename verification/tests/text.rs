use mc_keygen::text::{decimal_string, parse_bool, parse_u32, parse_u64, parse_usize};

#[test]
fn decimal_numerals() {
    assert_eq!(decimal_string(0), "0");
    assert_eq!(decimal_string(7), "7");
    assert_eq!(decimal_string(10), "10");
    assert_eq!(decimal_string(1234567890), "1234567890");
    assert_eq!(decimal_string(u64::MAX), u64::MAX.to_string());
}

#[test]
fn unsigned_parsing_matches_std() {
    let cases = [
        "", "+", "-", "0", "+0", "-0", "007", "42", "+42", " 42", "42 ", "4_2", "18446744073709551615",
        "18446744073709551616", "99999999999999999999999", "4294967295", "4294967296", "++1", "é",
    ];
    for c in cases.iter() {
        assert_eq!(parse_u64(c), c.parse::<u64>().ok(), "{:?}", c);
        assert_eq!(parse_u32(c), c.parse::<u32>().ok(), "{:?}", c);
        assert_eq!(parse_usize(c), c.parse::<usize>().ok(), "{:?}", c);
    }
}

#[test]
fn bool_parsing_matches_std() {
    for c in ["true", "false", "True", "", "1", "truee", "fals"].iter() {
        assert_eq!(parse_bool(c), c.parse::<bool>().ok(), "{:?}", c);
    }
}
