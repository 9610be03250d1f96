use extjson::{
    double, int32, long, parse_i64, DecimalError, DecodeError, Double, NumberKind, Value,
};

fn of(x: f64) -> Double {
    Double::from_bits(x.to_bits())
}

fn number(x: f64) -> Value {
    Value::Number(of(x))
}

fn text(s: &str) -> Value {
    Value::Text(s.to_string())
}

/// The greatest integer not above `x`, where it fits in 64 bits.
fn floor_of(x: f64) -> Option<i64> {
    let whole = x.floor();
    if whole.is_finite() && whole >= -9223372036854775808.0 && whole < 9223372036854775808.0 {
        Some(whole as i64)
    } else {
        None
    }
}

fn samples() -> Vec<f64> {
    let mut all = vec![
        0.0,
        -0.0,
        0.5,
        -0.5,
        1.0,
        -1.0,
        1.5,
        -1.5,
        2.0,
        1500.0,
        1500.25,
        -1500.25,
        0.1,
        -0.1,
        0.999_999_999_999_999_9,
        1e-300,
        -1e-300,
        5e-324,
        -5e-324,
        f64::MIN_POSITIVE,
        f64::EPSILON,
        2147483647.0,
        2147483648.0,
        -2147483648.0,
        -2147483649.0,
        4294967295.0,
        4294967296.0,
        4503599627370496.0,
        4503599627370495.5,
        -4503599627370495.5,
        9007199254740991.0,
        9007199254740992.0,
        9007199254740994.0,
        9223372036854774784.0,
        9223372036854775808.0,
        -9223372036854775808.0,
        -9223372036854777856.0,
        1e19,
        -1e19,
        1e300,
        -1e300,
        f64::MAX,
        f64::MIN,
        f64::INFINITY,
        f64::NEG_INFINITY,
        f64::NAN,
    ];
    let mut x = 1.0f64;
    for _ in 0..70 {
        all.push(x);
        all.push(-x);
        all.push(x + 0.5);
        all.push(-x - 0.5);
        all.push(x - 1.0);
        all.push(x * 1.1);
        all.push(-x * 1.1);
        all.push(1.0 / x);
        all.push(-1.0 / x);
        x *= 2.0;
    }
    all
}

#[test]
fn floor_agrees_with_floating_point() {
    for x in samples() {
        assert_eq!(of(x).floor_i64(), floor_of(x), "{:e}", x);
    }
}

#[test]
fn whole_numbers_are_told_from_fractions() {
    for x in samples() {
        let expected = if x.is_finite() && x.fract() == 0.0 { floor_of(x) } else { None };
        assert_eq!(of(x).to_i64(), expected, "{:e}", x);
    }
}

#[test]
fn floor_of_chosen_numbers() {
    assert_eq!(of(1500.0).floor_i64(), Some(1500));
    assert_eq!(of(1500.99).floor_i64(), Some(1500));
    assert_eq!(of(-1500.01).floor_i64(), Some(-1501));
    assert_eq!(of(-0.0).floor_i64(), Some(0));
    assert_eq!(of(-5e-324).floor_i64(), Some(-1));
    assert_eq!(of(5e-324).floor_i64(), Some(0));
    assert_eq!(of(-9223372036854775808.0).floor_i64(), Some(i64::MIN));
    assert_eq!(of(9223372036854775808.0).floor_i64(), None);
    assert_eq!(of(9223372036854774784.0).floor_i64(), Some(9223372036854774784));
    assert_eq!(of(f64::NAN).floor_i64(), None);
    assert_eq!(of(f64::INFINITY).floor_i64(), None);
    assert_eq!(of(1.5).to_i64(), None);
    assert_eq!(of(-3.0).to_i64(), Some(-3));
}

#[test]
fn finite_numbers_are_told_from_the_others() {
    for x in samples() {
        assert_eq!(of(x).is_finite(), x.is_finite(), "{:e}", x);
        assert_eq!(of(x).to_bits(), x.to_bits());
    }
    assert_eq!(Double::from_bits(0x7ff0_0000_0000_0001).is_finite(), false);
    assert_eq!(Double::from_bits(0xfff8_0000_0000_0000).is_finite(), false);
    assert_eq!(Double::from_bits(0x7fef_ffff_ffff_ffff).is_finite(), true);
}

#[test]
fn decimal_text_agrees_with_the_standard_parser() {
    let samples = [
        "0",
        "-0",
        "+0",
        "7",
        "+7",
        "-7",
        "42",
        "0042",
        "-0042",
        "2147483647",
        "2147483648",
        "-2147483648",
        "9223372036854775807",
        "9223372036854775808",
        "-9223372036854775808",
        "-9223372036854775809",
        "18446744073709551615",
        "18446744073709551616",
        "99999999999999999999999999999999",
        "-99999999999999999999999999999999",
        "000000000000000000000000000000001",
        "",
        "-",
        "+",
        "+-1",
        "--1",
        "1-",
        "1+1",
        " 1",
        "1 ",
        "1.0",
        "1e3",
        "0x10",
        "1_000",
        "12a",
        "a12",
        "\u{ff11}\u{ff12}",
        "١٢",
        "1\u{0}",
    ];
    for sample in samples {
        let expected = sample.parse::<i64>().ok();
        assert_eq!(parse_i64(sample.as_bytes()).ok(), expected, "{:?}", sample);
    }
}

#[test]
fn decimal_text_failures_are_told_apart() {
    assert_eq!(parse_i64(b"42"), Ok(42));
    assert_eq!(parse_i64(b"-42"), Ok(-42));
    assert_eq!(parse_i64(b"+42"), Ok(42));
    assert_eq!(parse_i64(b""), Err(DecimalError::Malformed));
    assert_eq!(parse_i64(b"-"), Err(DecimalError::Malformed));
    assert_eq!(parse_i64(b"4 2"), Err(DecimalError::Malformed));
    assert_eq!(parse_i64(b"9223372036854775808"), Err(DecimalError::OutOfRange));
    assert_eq!(parse_i64(b"-9223372036854775809"), Err(DecimalError::OutOfRange));
    // A text that is too long and has a stray character is malformed.
    assert_eq!(parse_i64(b"99999999999999999999999999x"), Err(DecimalError::Malformed));
    assert_eq!(parse_i64(b"x99999999999999999999999999"), Err(DecimalError::Malformed));
}

#[test]
fn int_takes_numbers_and_text() {
    assert_eq!(int32(&number(0.0)), Ok(0));
    assert_eq!(int32(&number(-0.0)), Ok(0));
    assert_eq!(int32(&number(2147483647.0)), Ok(i32::MAX));
    assert_eq!(int32(&number(-2147483648.0)), Ok(i32::MIN));
    assert_eq!(int32(&text("2147483647")), Ok(i32::MAX));
    assert_eq!(int32(&text("-2147483648")), Ok(i32::MIN));
    assert_eq!(int32(&text("+12")), Ok(12));
    assert_eq!(int32(&text("-12")), Ok(-12));
}

#[test]
fn int_out_of_range_fails() {
    let range = Err(DecodeError::NumberRange(NumberKind::Int));
    assert_eq!(int32(&number(2147483648.0)), range);
    assert_eq!(int32(&number(-2147483649.0)), range);
    assert_eq!(int32(&number(1.5)), range);
    assert_eq!(int32(&number(1e300)), range);
    assert_eq!(int32(&number(f64::NAN)), range);
    assert_eq!(int32(&number(f64::INFINITY)), range);
    assert_eq!(int32(&text("2147483648")), range);
    assert_eq!(int32(&text("-2147483649")), range);
    assert_eq!(int32(&text("99999999999999999999")), range);
}

#[test]
fn int_from_other_values_fails() {
    let format = Err(DecodeError::NumberFormat(NumberKind::Int));
    assert_eq!(int32(&text("")), format);
    assert_eq!(int32(&text("1.0")), format);
    assert_eq!(int32(&text("twelve")), format);
    let value = Err(DecodeError::NumberValue(NumberKind::Int));
    assert_eq!(int32(&Value::Null), value);
    assert_eq!(int32(&Value::Bool(true)), value);
    assert_eq!(int32(&Value::Array(vec![number(1.0)])), value);
    assert_eq!(int32(&Value::Object(vec![])), value);
}

#[test]
fn long_takes_numbers_and_text() {
    assert_eq!(long(&text("9223372036854775807")), Ok(i64::MAX));
    assert_eq!(long(&text("-9223372036854775808")), Ok(i64::MIN));
    assert_eq!(long(&text("1356351330501")), Ok(1356351330501));
    assert_eq!(long(&number(1356351330501.0)), Ok(1356351330501));
    assert_eq!(long(&number(-9223372036854775808.0)), Ok(i64::MIN));
    assert_eq!(long(&number(9223372036854775808.0)), Err(DecodeError::NumberRange(NumberKind::Long)));
    assert_eq!(long(&number(0.5)), Err(DecodeError::NumberRange(NumberKind::Long)));
    assert_eq!(long(&text("9223372036854775808")), Err(DecodeError::NumberRange(NumberKind::Long)));
    assert_eq!(long(&text("1e3")), Err(DecodeError::NumberFormat(NumberKind::Long)));
    assert_eq!(long(&Value::Null), Err(DecodeError::NumberValue(NumberKind::Long)));
}

#[test]
fn double_takes_numbers_only() {
    assert_eq!(double(&number(1.5)), Ok(of(1.5)));
    assert_eq!(double(&number(-0.0)), Ok(of(-0.0)));
    assert_eq!(double(&text("1.5")), Err(DecodeError::NumberValue(NumberKind::Double)));
    assert_eq!(double(&Value::Null), Err(DecodeError::NumberValue(NumberKind::Double)));
}
