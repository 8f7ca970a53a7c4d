use jrnlvw::time::{micros_to_seconds, seconds_from_midnight, to_unsigned_seconds};

#[test]
fn seconds_from_midnight_of_times() {
    assert_eq!(seconds_from_midnight(0, 0, 0), 0);
    assert_eq!(seconds_from_midnight(1, 2, 3), 3723);
    assert_eq!(seconds_from_midnight(12, 0, 0), 43_200);
    assert_eq!(seconds_from_midnight(23, 59, 59), 86_399);
}

#[test]
fn seconds_from_midnight_never_wraps() {
    assert_eq!(
        seconds_from_midnight(u32::MAX, u32::MAX, u32::MAX),
        4_294_967_295u64 * 3600 + 4_294_967_295u64 * 60 + 4_294_967_295u64
    );
}

#[test]
fn unsigned_seconds_keeps_what_is_not_negative() {
    assert_eq!(to_unsigned_seconds(0), 0);
    assert_eq!(to_unsigned_seconds(86_400), 86_400);
    assert_eq!(to_unsigned_seconds(i64::MAX), 9_223_372_036_854_775_807);
}

#[test]
fn unsigned_seconds_wraps_what_is_negative() {
    assert_eq!(to_unsigned_seconds(-1), u64::MAX);
    assert_eq!(to_unsigned_seconds(-86_400), u64::MAX - 86_399);
    assert_eq!(to_unsigned_seconds(i64::MIN), 9_223_372_036_854_775_808);
    for s in [-1i64, -2, -86_400, i64::MIN, i64::MIN + 1] {
        assert_eq!(to_unsigned_seconds(s), s as u64);
    }
}

#[test]
fn microseconds_round_toward_zero() {
    assert_eq!(micros_to_seconds(0), 0);
    assert_eq!(micros_to_seconds(999_999), 0);
    assert_eq!(micros_to_seconds(1_000_000), 1);
    assert_eq!(micros_to_seconds(1_600_000_000_000_000), 1_600_000_000);
    assert_eq!(micros_to_seconds(1_600_000_000_999_999), 1_600_000_000);
    assert_eq!(micros_to_seconds(-1), 0);
    assert_eq!(micros_to_seconds(-999_999), 0);
    assert_eq!(micros_to_seconds(-1_000_000), -1);
    assert_eq!(micros_to_seconds(-1_500_000), -1);
    assert_eq!(micros_to_seconds(i64::MAX), 9_223_372_036_854);
    assert_eq!(micros_to_seconds(i64::MIN), -9_223_372_036_854);
}

#[test]
fn microseconds_divide_as_the_machine_does() {
    for m in [0i64, 1, -1, 999_999, -999_999, 1_000_000, -1_000_000, i64::MAX, i64::MIN, 17, -17] {
        assert_eq!(micros_to_seconds(m), m / 1_000_000);
    }
}
