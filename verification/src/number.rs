//! The numeric primitives: what a value is as a double, as a 32-bit integer
//! and as a 64-bit integer.

use crate::decimal::{decimal_value, parse_i64, DecimalError};
use crate::double::Double;
use crate::error::{DecodeError, NumberKind};
use crate::value::Value;
use vstd::prelude::*;
use vstd::utf8::*;

verus! {

/// The integer that a value stands for: a number without a fractional part,
/// or a string holding a decimal integer.
pub open spec fn integer_of(value: Value, kind: NumberKind) -> Result<int, DecodeError> {
    match value {
        Value::Number(number) => if number.integral() {
            Ok(number.floor())
        } else {
            Err(DecodeError::NumberRange(kind))
        },
        Value::Text(text) => match decimal_value(encode_utf8(text@)) {
            Some(integer) => Ok(integer),
            None => Err(DecodeError::NumberFormat(kind)),
        },
        _ => Err(DecodeError::NumberValue(kind)),
    }
}

/// What a value decodes to as a double: only a number is one.
pub open spec fn decoded_double(value: Value) -> Result<Double, DecodeError> {
    match value {
        Value::Number(number) => Ok(number),
        _ => Err(DecodeError::NumberValue(NumberKind::Double)),
    }
}

/// What a value decodes to as a signed 32-bit integer.
pub open spec fn decoded_int(value: Value) -> Result<i32, DecodeError> {
    match integer_of(value, NumberKind::Int) {
        Ok(integer) => if i32::MIN <= integer <= i32::MAX {
            Ok(integer as i32)
        } else {
            Err(DecodeError::NumberRange(NumberKind::Int))
        },
        Err(error) => Err(error),
    }
}

/// What a value decodes to as a signed 64-bit integer.
pub open spec fn decoded_long(value: Value) -> Result<i64, DecodeError> {
    match integer_of(value, NumberKind::Long) {
        Ok(integer) => if i64::MIN <= integer <= i64::MAX {
            Ok(integer as i64)
        } else {
            Err(DecodeError::NumberRange(NumberKind::Long))
        },
        Err(error) => Err(error),
    }
}

/// The 64-bit integer that a value stands for, with the failures named for
/// the given wrapper.
fn integer(value: &Value, kind: NumberKind) -> (r: Result<i64, DecodeError>)
    ensures
        r == match integer_of(*value, kind) {
            Ok(integer) => if i64::MIN <= integer <= i64::MAX {
                Ok(integer as i64)
            } else {
                Err(DecodeError::NumberRange(kind))
            },
            Err(error) => Err(error),
        },
{
    match value {
        Value::Number(number) => match number.to_i64() {
            Some(integer) => Ok(integer),
            None => Err(DecodeError::NumberRange(kind)),
        },
        Value::Text(text) => match parse_i64(text.as_str().as_bytes()) {
            Ok(integer) => Ok(integer),
            Err(DecimalError::Malformed) => Err(DecodeError::NumberFormat(kind)),
            Err(DecimalError::OutOfRange) => Err(DecodeError::NumberRange(kind)),
        },
        _ => Err(DecodeError::NumberValue(kind)),
    }
}

/// Reads a value as a double.
pub fn double(value: &Value) -> (r: Result<Double, DecodeError>)
    ensures
        r == decoded_double(*value),
{
    match value {
        Value::Number(number) => Ok(*number),
        _ => Err(DecodeError::NumberValue(NumberKind::Double)),
    }
}

/// Reads a value as a signed 32-bit integer.
pub fn int32(value: &Value) -> (r: Result<i32, DecodeError>)
    ensures
        r == decoded_int(*value),
{
    match integer(value, NumberKind::Int) {
        Ok(integer) => if -0x8000_0000 <= integer && integer <= 0x7fff_ffff {
            Ok(integer as i32)
        } else {
            Err(DecodeError::NumberRange(NumberKind::Int))
        },
        Err(error) => Err(error),
    }
}

/// Reads a value as a signed 64-bit integer.
pub fn long(value: &Value) -> (r: Result<i64, DecodeError>)
    ensures
        r == decoded_long(*value),
{
    integer(value, NumberKind::Long)
}

} // verus!
