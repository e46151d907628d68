use enrichment::decimal::{parse_decimal, parse_micros, round_to_cents};
use enrichment::json::JsonNumber;

fn plain(mantissa: u128, exponent: i32) -> JsonNumber {
    JsonNumber { negative: false, mantissa, exponent }
}

#[test]
fn decimal_texts() {
    assert_eq!(parse_decimal("100"), Some(plain(100, 0)));
    assert_eq!(parse_decimal("10.5"), Some(plain(105, -1)));
    assert_eq!(parse_decimal("0.000001"), Some(plain(1, -6)));
    assert_eq!(parse_decimal("007.250"), Some(plain(7250, -3)));
    assert_eq!(parse_decimal("5."), Some(plain(5, 0)));
    assert_eq!(parse_decimal("0"), Some(plain(0, 0)));
    assert_eq!(
        parse_decimal("340282366920938463463374607431768211.455"),
        Some(plain(u128::MAX, -3))
    );
}

#[test]
fn signs_points_and_powers() {
    assert_eq!(parse_decimal("+5"), Some(plain(5, 0)));
    assert_eq!(parse_decimal(".5"), Some(plain(5, -1)));
    assert_eq!(parse_decimal("1e2"), Some(plain(1, 2)));
    assert_eq!(parse_decimal("1E2"), Some(plain(1, 2)));
    assert_eq!(parse_decimal("1.5e+3"), Some(plain(15, 2)));
    assert_eq!(parse_decimal("12.50E-3"), Some(plain(1250, -5)));
    assert_eq!(parse_decimal("+.25e1"), Some(plain(25, -1)));
    assert_eq!(parse_decimal("1e-0"), Some(plain(1, 0)));
    assert_eq!(parse_decimal("1e2147483647"), Some(plain(1, i32::MAX)));
    assert_eq!(parse_decimal("1.0e-2147483647"), Some(plain(10, i32::MIN)));
    assert_eq!(
        parse_decimal("-1"),
        Some(JsonNumber { negative: true, mantissa: 1, exponent: 0 })
    );
    assert_eq!(
        parse_decimal("-0.75"),
        Some(JsonNumber { negative: true, mantissa: 75, exponent: -2 })
    );
}

#[test]
fn texts_that_write_no_decimal() {
    for text in [
        "", ".", "+", "-", "+.", "e5", ".e5", "1e", "1e+", "1e-", "1e5e3", "1e1.5", "--1", "+-1",
        "1.2.3", "1,5", " 1", "1 ", "abc", "NaN", "nan", "inf", "infinity", "0x10", "1_000",
        "1e2147483648", "1.0e-2147483648", "1e99999999999999999999999999999999999999999",
        "340282366920938463463374607431768211456", "34028236692093846346337460743176821145.60",
    ] {
        assert_eq!(parse_decimal(text), None, "{}", text);
    }
}

#[test]
fn amounts_agree_with_floating_point() {
    for text in [
        "0", "100", "10.5", "+5", ".5", "5.", "1e2", "1.5e3", "2.5E-1", "99.99", "0.000001",
        "123456.789", "1e-6", "12e-7", "7e0",
    ] {
        let micros = parse_micros(text).unwrap();
        let float: f64 = text.parse().unwrap();
        assert_eq!(micros, (float * 1e6 + 1e-3).floor() as u64, "{}", text);
    }
    for text in ["-1", "-0.5", "abc", "", "1e30", "NaN", "inf"] {
        assert_eq!(parse_micros(text), None, "{}", text);
    }
    assert_eq!(parse_micros("-0"), Some(0));
}

#[test]
fn millionths_of_a_number() {
    assert_eq!(plain(100, 0).to_micros(), Some(100_000_000));
    assert_eq!(plain(105, -1).to_micros(), Some(10_500_000));
    assert_eq!(plain(1, -6).to_micros(), Some(1));
    assert_eq!(plain(19, -7).to_micros(), Some(1));
    assert_eq!(plain(9, -7).to_micros(), Some(0));
    assert_eq!(plain(1, 2).to_micros(), Some(100_000_000));
    assert_eq!(plain(123_456_789, -9).to_micros(), Some(123_456));
    assert_eq!(plain(u128::MAX, -40).to_micros(), Some(34_028));
    assert_eq!(plain(u128::MAX, -45).to_micros(), Some(0));
    assert_eq!(plain(u128::MAX, i32::MIN).to_micros(), Some(0));
    assert_eq!(plain(18_446_744_073_709_551_615, -6).to_micros(), Some(u64::MAX));
    assert_eq!(plain(18_446_744_073_709, 0).to_micros(), Some(18_446_744_073_709_000_000));
}

#[test]
fn zero_is_zero_whatever_the_power() {
    assert_eq!(plain(0, 0).to_micros(), Some(0));
    assert_eq!(plain(0, i32::MAX).to_micros(), Some(0));
    assert_eq!(plain(0, i32::MIN).to_micros(), Some(0));
    assert_eq!(JsonNumber { negative: true, mantissa: 0, exponent: 3 }.to_micros(), Some(0));
}

#[test]
fn negative_and_too_large_numbers_are_no_amounts() {
    assert_eq!(JsonNumber { negative: true, mantissa: 1, exponent: 0 }.to_micros(), None);
    assert_eq!(JsonNumber { negative: true, mantissa: 1, exponent: -9 }.to_micros(), None);
    assert_eq!(plain(18_446_744_073_710, 0).to_micros(), None);
    assert_eq!(plain(18_446_744_073_709_551_616, -6).to_micros(), None);
    assert_eq!(plain(1, 14).to_micros(), None);
    assert_eq!(plain(1, i32::MAX).to_micros(), None);
    assert_eq!(plain(u128::MAX, 0).to_micros(), None);
    assert_eq!(plain(u128::MAX, -6).to_micros(), None);
}

#[test]
fn rounding_to_hundredths() {
    assert_eq!(round_to_cents(0), 0);
    assert_eq!(round_to_cents(4_999), 0);
    assert_eq!(round_to_cents(5_000), 1);
    assert_eq!(round_to_cents(14_999), 1);
    assert_eq!(round_to_cents(15_000), 2);
    assert_eq!(round_to_cents(90_909_090), 9_091);
    assert_eq!(round_to_cents(9_090_909), 909);
    assert_eq!(round_to_cents(4_545_454), 455);
    assert_eq!(round_to_cents(100_000_000), 10_000);
    assert_eq!(round_to_cents(u128::MAX), u128::MAX / 10_000);
    assert_eq!(round_to_cents(u128::MAX - 1_455 - 5_000), u128::MAX / 10_000);
    assert_eq!(round_to_cents(u128::MAX - 1_455 - 5_001), u128::MAX / 10_000 - 1);
}

#[test]
fn whole_numbers() {
    assert_eq!(JsonNumber::from_u64(31), plain(31, 0));
    assert_eq!(JsonNumber::from_u64(u64::MAX), plain(u64::MAX as u128, 0));
}
