use launcher_core::text::u64_to_decimal;

#[test]
fn decimal_of_small_and_large_numbers() {
    assert_eq!(u64_to_decimal(0), "0");
    assert_eq!(u64_to_decimal(7), "7");
    assert_eq!(u64_to_decimal(10), "10");
    assert_eq!(u64_to_decimal(8192), "8192");
    assert_eq!(u64_to_decimal(1_000_000), "1000000");
    assert_eq!(u64_to_decimal(u64::MAX), "18446744073709551615");
}

#[test]
fn decimal_agrees_with_the_standard_library() {
    let mut value: u64 = 1;
    for _ in 0..64 {
        assert_eq!(u64_to_decimal(value), value.to_string());
        assert_eq!(u64_to_decimal(value - 1), (value - 1).to_string());
        value = value.wrapping_mul(2);
    }
}
