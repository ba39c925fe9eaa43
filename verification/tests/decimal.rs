use aekosia::decimal::{digit_of, digit_str, magnitude_of, read_digits};

#[test]
fn digit_str_is_the_digit() {
    let all = ["0", "1", "2", "3", "4", "5", "6", "7", "8", "9"];
    for d in 0..10_u64 {
        assert_eq!(digit_str(d), all[d as usize]);
    }
}

#[test]
fn magnitude_of_each_sign() {
    assert_eq!(magnitude_of(0), 0);
    assert_eq!(magnitude_of(17), 17);
    assert_eq!(magnitude_of(-17), 17);
    assert_eq!(magnitude_of(i64::MAX), 9_223_372_036_854_775_807);
    assert_eq!(magnitude_of(i64::MIN), 9_223_372_036_854_775_808);
}

#[test]
fn digit_of_each_byte() {
    for b in 0..=255_u8 {
        let expected = if b.is_ascii_digit() { Some((b - b'0') as u128) } else { None };
        assert_eq!(digit_of(b), expected);
    }
}

#[test]
fn read_digits_counts_up_to_its_cap() {
    let bytes = "x0123456789y".as_bytes();
    assert_eq!(read_digits(bytes, 1, 11), Some(123_456_789));
    assert_eq!(read_digits(bytes, 1, 1), Some(0));
    assert_eq!(read_digits(bytes, 5, 8), Some(456));
    assert_eq!(read_digits(bytes, 0, 3), None);
    assert_eq!(read_digits(bytes, 9, 12), None);
    let long = "9999999999999999999".as_bytes();
    assert_eq!(read_digits(long, 0, 19), Some(9_999_999_999_999_999_999));
    let longer = "10000000000000000000".as_bytes();
    assert_eq!(read_digits(longer, 0, 20), Some(10_000_000_000_000_000_000));
    let longest = "123456789012345678901234567890".as_bytes();
    assert_eq!(read_digits(longest, 0, 30), Some(10_000_000_000_000_000_000));
}
