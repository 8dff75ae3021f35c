use price_tracker::decimal::{parse_i64, parse_u32, parse_u64, push_bool, push_decimal, push_signed_decimal, IntErrorKind};

fn std_kind(e: &std::num::ParseIntError) -> IntErrorKind {
    match e.kind() {
        std::num::IntErrorKind::Empty => IntErrorKind::Empty,
        std::num::IntErrorKind::InvalidDigit => IntErrorKind::InvalidDigit,
        std::num::IntErrorKind::PosOverflow => IntErrorKind::PosOverflow,
        std::num::IntErrorKind::NegOverflow => IntErrorKind::NegOverflow,
        other => panic!("unexpected kind {:?}", other),
    }
}

const SAMPLES: &[&str] = &[
    "", "+", "-", "0", "00", "+0", "-0", "42", "+42", "-42", "4a", "a4", " 4", "4 ", "++4", "+-4", "--4",
    "4294967295", "4294967296", "-4294967295", "18446744073709551615", "18446744073709551616",
    "9223372036854775807", "9223372036854775808", "-9223372036854775808", "-9223372036854775809",
    "99999999999999999999999x", "x99999999999999999999999", "١٢", "12é", "007", "1_000",
];

#[test]
fn parse_u32_agrees_with_std() {
    for s in SAMPLES {
        let expected = s.parse::<u32>().map_err(|e| std_kind(&e));
        assert_eq!(parse_u32(s), expected, "input {:?}", s);
    }
}

#[test]
fn parse_u64_agrees_with_std() {
    for s in SAMPLES {
        let expected = s.parse::<u64>().map_err(|e| std_kind(&e));
        assert_eq!(parse_u64(s), expected, "input {:?}", s);
    }
}

#[test]
fn parse_i64_agrees_with_std() {
    for s in SAMPLES {
        let expected = s.parse::<i64>().map_err(|e| std_kind(&e));
        assert_eq!(parse_i64(s), expected, "input {:?}", s);
    }
}

#[test]
fn parse_exact_values() {
    assert_eq!(parse_u32("100"), Ok(100));
    assert_eq!(parse_u32(""), Err(IntErrorKind::Empty));
    assert_eq!(parse_u32("-1"), Err(IntErrorKind::InvalidDigit));
    assert_eq!(parse_u32("4294967296"), Err(IntErrorKind::PosOverflow));
    assert_eq!(parse_i64("-9223372036854775809"), Err(IntErrorKind::NegOverflow));
    assert_eq!(parse_i64("-9223372036854775808"), Ok(i64::MIN));
    assert_eq!(parse_u64("+60"), Ok(60));
}

#[test]
fn decimal_writing_agrees_with_display() {
    for n in [0u64, 7, 10, 99, 100, 12345, u32::MAX as u64, u64::MAX] {
        let mut s = String::from("n=");
        push_decimal(&mut s, n);
        assert_eq!(s, format!("n={}", n));
    }
    for i in [0i64, -1, 5, -10, 123456, i64::MIN, i64::MAX] {
        let mut s = String::new();
        push_signed_decimal(&mut s, i);
        assert_eq!(s, i.to_string());
    }
    let mut s = String::new();
    push_bool(&mut s, true);
    push_bool(&mut s, false);
    assert_eq!(s, "truefalse");
}
