use jrnlvw::number::{parse_hex_u32, parse_i64, parse_u32, to_decimal};

#[test]
fn decimal_u32_reads_plain_digits() {
    assert_eq!(parse_u32("0"), Some(0));
    assert_eq!(parse_u32("7"), Some(7));
    assert_eq!(parse_u32("42"), Some(42));
    assert_eq!(parse_u32("4294967295"), Some(u32::MAX));
}

#[test]
fn decimal_u32_takes_a_plus_and_leading_zeros() {
    assert_eq!(parse_u32("+3"), Some(3));
    assert_eq!(parse_u32("007"), Some(7));
    assert_eq!(parse_u32("00000000000000000000003"), Some(3));
}

#[test]
fn decimal_u32_rejects_what_is_no_number() {
    assert_eq!(parse_u32(""), None);
    assert_eq!(parse_u32("+"), None);
    assert_eq!(parse_u32("-"), None);
    assert_eq!(parse_u32("-1"), None);
    assert_eq!(parse_u32("-0"), None);
    assert_eq!(parse_u32("++1"), None);
    assert_eq!(parse_u32(" 1"), None);
    assert_eq!(parse_u32("1 "), None);
    assert_eq!(parse_u32("1_000"), None);
    assert_eq!(parse_u32("1a"), None);
    assert_eq!(parse_u32("N/A"), None);
    assert_eq!(parse_u32("٣"), None);
}

#[test]
fn decimal_u32_rejects_overflow() {
    assert_eq!(parse_u32("4294967296"), None);
    assert_eq!(parse_u32("99999999999999999999999999999999999999999999"), None);
}

#[test]
fn decimal_u32_agrees_with_std() {
    let samples = [
        "", "0", "1", "+1", "-1", "12", "0012", "4294967295", "4294967296", "+4294967295", "1x",
        "x1", " 1", "1 ", "+", "-", "+-1", "١", "18446744073709551616",
    ];
    for s in samples {
        assert_eq!(parse_u32(s), s.parse::<u32>().ok(), "on {:?}", s);
    }
}

#[test]
fn hex_u32_reads_both_cases() {
    assert_eq!(parse_hex_u32("1a"), Some(26));
    assert_eq!(parse_hex_u32("1A"), Some(26));
    assert_eq!(parse_hex_u32("ff"), Some(255));
    assert_eq!(parse_hex_u32("0"), Some(0));
    assert_eq!(parse_hex_u32("ffffffff"), Some(u32::MAX));
    assert_eq!(parse_hex_u32("DeadBeef"), Some(0xdead_beef));
}

#[test]
fn hex_u32_rejects_bad_digits_and_overflow() {
    assert_eq!(parse_hex_u32(""), None);
    assert_eq!(parse_hex_u32("g"), None);
    assert_eq!(parse_hex_u32("0x1a"), None);
    assert_eq!(parse_hex_u32("1a;"), None);
    assert_eq!(parse_hex_u32("100000000"), None);
    assert_eq!(parse_hex_u32("-1"), None);
}

#[test]
fn hex_u32_agrees_with_std() {
    let samples = [
        "", "0", "1a", "1A", "+1a", "-1a", "ffffffff", "100000000", "0x10", "g1", "1g", "f f",
        "+", "00000000000000ff",
    ];
    for s in samples {
        assert_eq!(parse_hex_u32(s), u32::from_str_radix(s, 16).ok(), "on {:?}", s);
    }
}

#[test]
fn decimal_i64_reads_both_signs() {
    assert_eq!(parse_i64("0"), Some(0));
    assert_eq!(parse_i64("-0"), Some(0));
    assert_eq!(parse_i64("+15"), Some(15));
    assert_eq!(parse_i64("-15"), Some(-15));
    assert_eq!(parse_i64("1600000000000000"), Some(1_600_000_000_000_000));
    assert_eq!(parse_i64("9223372036854775807"), Some(i64::MAX));
    assert_eq!(parse_i64("-9223372036854775808"), Some(i64::MIN));
}

#[test]
fn decimal_i64_rejects_what_is_no_number() {
    assert_eq!(parse_i64(""), None);
    assert_eq!(parse_i64("-"), None);
    assert_eq!(parse_i64("+"), None);
    assert_eq!(parse_i64("-+1"), None);
    assert_eq!(parse_i64("+-1"), None);
    assert_eq!(parse_i64("--1"), None);
    assert_eq!(parse_i64("N/A"), None);
    assert_eq!(parse_i64("12.5"), None);
    assert_eq!(parse_i64("9223372036854775808"), None);
    assert_eq!(parse_i64("-9223372036854775809"), None);
}

#[test]
fn decimal_i64_agrees_with_std() {
    let samples = [
        "", "0", "-0", "+0", "1", "-1", "+1", "9223372036854775807", "9223372036854775808",
        "-9223372036854775808", "-9223372036854775809", "1e3", " 1", "-", "+", "-+1", "0001",
        "-0001", "99999999999999999999999999",
    ];
    for s in samples {
        assert_eq!(parse_i64(s), s.parse::<i64>().ok(), "on {:?}", s);
    }
}

#[test]
fn decimal_text_of_numbers() {
    assert_eq!(to_decimal(0), "0");
    assert_eq!(to_decimal(9), "9");
    assert_eq!(to_decimal(10), "10");
    assert_eq!(to_decimal(26), "26");
    assert_eq!(to_decimal(1000), "1000");
    assert_eq!(to_decimal(4294967295), "4294967295");
    assert_eq!(to_decimal(u64::MAX), "18446744073709551615");
}

#[test]
fn decimal_text_reads_back() {
    for n in [0u32, 1, 9, 10, 99, 100, 12345, 4294967295] {
        assert_eq!(parse_u32(&to_decimal(u64::from(n))), Some(n));
        assert_eq!(to_decimal(u64::from(n)), n.to_string());
    }
    for n in [4294967296u64, 10_000_000_000, u64::MAX - 1, u64::MAX] {
        assert_eq!(to_decimal(n), n.to_string());
    }
}
