use simple_lib::instant::{Instant, dt_ms, instant_from_total, total_ms, MS_PER_DAY, MS_PER_YEAR};
use simple_lib::numerals::{i64_to_dec, parse_digits, u64_to_dec};

#[test]
fn instant_ordering() {
    let a = Instant { month: 7, day: 1, msec: 0 };
    let b = Instant { month: 7, day: 1, msec: 1 };
    let c = Instant { month: 8, day: 1, msec: 0 };
    assert!(b.is_later(&a));
    assert!(!a.is_later(&b));
    assert!(c.is_later(&b));
    assert!(!a.is_later(&a));
    assert_eq!(a, Instant { month: 7, day: 1, msec: 0 });
}

#[test]
fn instant_total_round_trip() {
    let samples = [
        Instant { month: 1, day: 1, msec: 0 },
        Instant { month: 2, day: 28, msec: 86_399_999 },
        Instant { month: 7, day: 1, msec: 43_200_000 },
        Instant { month: 12, day: 31, msec: 86_399_999 },
    ];
    for i in samples {
        let t = total_ms(i);
        assert!(t < MS_PER_YEAR);
        assert_eq!(instant_from_total(t), i);
    }
    assert_eq!(total_ms(Instant { month: 1, day: 1, msec: 0 }), 0);
    assert_eq!(total_ms(Instant { month: 1, day: 2, msec: 0 }), MS_PER_DAY);
    // July the first starts on day-of-year 182 of the non-leap year.
    assert_eq!(total_ms(Instant { month: 7, day: 1, msec: 0 }), 181 * MS_PER_DAY);
}

#[test]
fn tick_spacing_divides_the_hour() {
    assert_eq!(dt_ms(60), 60_000);
    assert_eq!(dt_ms(1), 3_600_000);
    assert_eq!(dt_ms(3_600_000), 1);
}

#[test]
fn decimal_rendering() {
    assert_eq!(u64_to_dec(0), "0");
    assert_eq!(u64_to_dec(7), "7");
    assert_eq!(u64_to_dec(12_345), "12345");
    assert_eq!(u64_to_dec(u64::MAX), "18446744073709551615");
    assert_eq!(i64_to_dec(0), "0");
    assert_eq!(i64_to_dec(-42), "-42");
    assert_eq!(i64_to_dec(i64::MIN), "-9223372036854775808");
}

#[test]
fn decimal_parsing() {
    assert_eq!(parse_digits("0"), Some(0));
    assert_eq!(parse_digits("007"), Some(7));
    assert_eq!(parse_digits("12345"), Some(12_345));
    assert_eq!(parse_digits("18446744073709551615"), Some(u64::MAX));
    assert_eq!(parse_digits("18446744073709551616"), None);
    assert_eq!(parse_digits(""), None);
    assert_eq!(parse_digits("12a"), None);
    assert_eq!(parse_digits("-3"), None);
    assert_eq!(parse_digits("1.5"), None);
}

#[test]
fn decimal_round_trip() {
    for v in [0u64, 1, 9, 10, 99, 100, 65_535, 1_000_000_007] {
        assert_eq!(parse_digits(u64_to_dec(v).as_str()), Some(v));
    }
}
