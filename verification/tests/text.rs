use bloom::text::{parse_u16, parse_u64, parse_u8, split_trimmed, u64_to_dec, u64_to_hex16};

#[test]
fn decimal_rendering_and_parsing_invert() {
    assert_eq!(u64_to_dec(0), "0");
    assert_eq!(u64_to_dec(7), "7");
    assert_eq!(u64_to_dec(105), "105");
    assert_eq!(u64_to_dec(18446744073709551615), "18446744073709551615");
    assert_eq!(parse_u64("18446744073709551615"), Some(u64::MAX));
    assert_eq!(parse_u64("18446744073709551616"), None);
    assert_eq!(parse_u64("007"), Some(7));
    assert_eq!(parse_u64(""), None);
    assert_eq!(parse_u64("1 2"), None);
    assert_eq!(parse_u64("-1"), None);
}

#[test]
fn narrow_parses_enforce_their_ranges() {
    assert_eq!(parse_u8("255"), Some(255));
    assert_eq!(parse_u8("256"), None);
    assert_eq!(parse_u16("65535"), Some(65535));
    assert_eq!(parse_u16("65536"), None);
}

#[test]
fn hex16_is_fixed_width_and_zero_padded() {
    assert_eq!(u64_to_hex16(0), "0000000000000000");
    assert_eq!(u64_to_hex16(255), "00000000000000ff");
    assert_eq!(u64_to_hex16(u64::MAX), "ffffffffffffffff");
    assert_eq!(u64_to_hex16(0x7cf7a048e7a274fb), "7cf7a048e7a274fb");
}

#[test]
fn split_trimmed_drops_blanks_and_spaces() {
    assert_eq!(split_trimmed("a, b , ,c"), vec!["a", "b", "c"]);
    assert_eq!(split_trimmed(""), Vec::<String>::new());
    assert_eq!(split_trimmed(",,,"), Vec::<String>::new());
    assert_eq!(split_trimmed("\tone\t"), vec!["one"]);
}
