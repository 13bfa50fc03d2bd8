use serde_json::Value;

use compux::json::{length, length_value};
use compux::measure::{from_double, from_whole, round};

// A double is taken to the nearest millionth, halves away from zero.
#[test]
fn a_double_is_a_length_to_the_millionth() {
    for (number, expected) in [
        (0.0, 0),
        (-0.0, 0),
        (1.0, 1_000_000),
        (0.5, 500_000),
        (-2.25, -2_250_000),
        (1e-6, 1),
        (0.5e-6, 0),
        (0.6e-6, 1),
        (2f64.powi(-21), 0),
        (3.0 * 2f64.powi(-20), 3),
        (1234567.875, 1_234_567_875_000),
        (9_007_199_254.740993, 9_007_199_254_740_993),
        (5e-324, 0),
    ] {
        assert_eq!(from_double(f64::to_bits(number)), expected, "{number}");
    }
}

#[test]
fn a_length_has_an_end() {
    for number in [1e13, 1e300, f64::MAX, f64::INFINITY] {
        assert_eq!(from_double(number.to_bits()), i64::MAX, "{number}");
        assert_eq!(from_double((-number).to_bits()), -i64::MAX, "{number}");
    }
    assert_eq!(from_double(9.2e12f64.to_bits()), 9_200_000_000_000_000_000);
    assert_eq!(from_whole(7), 7_000_000);
    assert_eq!(from_whole(-7), -7_000_000);
    assert_eq!(from_whole(i64::MAX), i64::MAX);
    assert_eq!(from_whole(i64::MIN), -i64::MAX);
}

// A double that is a whole number of millionths comes back as it went.
#[test]
fn a_length_is_written_and_read() {
    assert_eq!(compux::measure::write(1_500_000), "1.5");
    assert_eq!(compux::measure::write(-250_000), "-0.25");
    assert_eq!(round(-2_500_000), -3);
    for micro in [0, 1, -1, 1_000_000, 1_500_000, -123_456_789, 502_844] {
        let value = length_value(micro);
        assert!(value.is_f64(), "{value}");
        assert_eq!(length(&value), Some(micro));
    }
    assert_eq!(length(&Value::from(3u64)), Some(3_000_000));
    assert_eq!(length(&Value::from(-3i64)), Some(-3_000_000));
    assert_eq!(length(&Value::from(u64::MAX)), Some(i64::MAX));
    assert_eq!(length(&Value::from("3")), None);
}
