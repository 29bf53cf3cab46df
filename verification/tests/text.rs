use bitmapflow::text::decimal_padded;

#[test]
fn decimal_is_padded_with_zeros() {
    assert_eq!(decimal_padded(0, 0), "0");
    assert_eq!(decimal_padded(0, 1), "0");
    assert_eq!(decimal_padded(0, 3), "000");
    assert_eq!(decimal_padded(7, 4), "0007");
    assert_eq!(decimal_padded(12345, 4), "12345");
    assert_eq!(decimal_padded(12345, 5), "12345");
    assert_eq!(decimal_padded(12345, 6), "012345");
    assert_eq!(decimal_padded(usize::MAX, 0), usize::MAX.to_string());
}

#[test]
fn decimal_agrees_with_format() {
    for n in [0usize, 1, 9, 10, 11, 99, 100, 101, 999, 1000, 65535, 1_000_000, usize::MAX] {
        assert_eq!(decimal_padded(n, 0), format!("{}", n));
        assert_eq!(decimal_padded(n, 4), format!("{:04}", n));
        assert_eq!(decimal_padded(n, 9), format!("{:09}", n));
    }
}
