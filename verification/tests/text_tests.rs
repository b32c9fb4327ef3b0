use preprompter::text::{u64_to_dec, u64_to_dec_padded};

#[test]
fn decimal_rendering_is_exact() {
    assert_eq!(u64_to_dec(0), "0");
    assert_eq!(u64_to_dec(7), "7");
    assert_eq!(u64_to_dec(1710524730123), "1710524730123");
    assert_eq!(u64_to_dec(u64::MAX), "18446744073709551615");
}

#[test]
fn padding_fills_to_the_width() {
    assert_eq!(u64_to_dec_padded(7, 4), "0007");
    assert_eq!(u64_to_dec_padded(2024, 4), "2024");
    assert_eq!(u64_to_dec_padded(12345, 4), "12345");
    assert_eq!(u64_to_dec_padded(0, 3), "000");
    assert_eq!(u64_to_dec_padded(5, 0), "5");
}
