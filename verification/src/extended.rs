//! The wrapper decoders and the dispatcher.

use crate::bson::{
    outcome, Binary, BinarySubtype, BsonModel, BsonValue, DateTime, ObjectId, Regex, Timestamp,
};
use crate::codec::{
    base64_decode, base64_decoding, bytes_outcome, first_non_hex, hex_decode, hex_decoding,
    hex_digit_value, hex_encoding, is_hex_digit, is_hex_text, lemma_hex_round_trip,
    lemma_utf8_no_shorter, lower_hex_text,
};
use crate::double::Double;
use crate::error::{Base64Error, DecodeError, HexError, NumberKind};
use crate::number::{decoded_double, decoded_int, decoded_long, double, int32, long};
use crate::options::{lemma_normalized_options_shape, normalize_options, normalized_options};
use crate::text::same_text;
use crate::value::{Key, Value};
use vstd::prelude::*;
use vstd::utf8::*;

verus! {

/// The binary value made of a decoded payload and a decoded subtype. A
/// payload that did not decode is reported first; the subtype must have
/// decoded to exactly one byte.
pub open spec fn binary_of(
    payload: Result<Seq<u8>, Base64Error>,
    subtype: Result<Seq<u8>, HexError>,
) -> Result<BsonModel, DecodeError> {
    match payload {
        Err(cause) => Err(DecodeError::BinaryPayloadFormat(cause)),
        Ok(bytes) => match subtype {
            Err(cause) => Err(DecodeError::BinarySubtypeFormat(cause)),
            Ok(tag) => if tag.len() == 1 {
                Ok(BsonModel::Binary { bytes, subtype: BinarySubtype::of_byte(tag[0]) })
            } else {
                Err(DecodeError::BinarySubtypeLength { len: tag.len() as usize })
            },
        },
    }
}

/// The bytes that the text of a subtype stands for. The subtype is written
/// with one or two hexadecimal digits: a text of one byte is read as
/// hexadecimal with the digit `0` put in front of it, so that a single digit
/// stands for the byte of its value; any other text is read as hexadecimal
/// as it is. A byte that is no digit is reported at its offset in the text
/// as written.
pub open spec fn subtype_decoding(text: Seq<u8>) -> Result<Seq<u8>, HexError> {
    if text.len() == 1 {
        match hex_decoding(seq![0x30u8] + text) {
            Err(HexError::InvalidCharacter { c, index }) => Err(
                HexError::InvalidCharacter { c, index: (index - 1) as usize },
            ),
            other => other,
        }
    } else {
        hex_decoding(text)
    }
}

/// What the value under `$binary` decodes to: the Base64 text under `base64`
/// with the subtype whose one or two hexadecimal digits stand under
/// `subType`.
pub open spec fn decoded_binary(target: Value) -> Result<BsonModel, DecodeError> {
    match target.text_field("base64"@) {
        None => Err(DecodeError::BinaryPayload),
        Some(payload) => match target.text_field("subType"@) {
            None => Err(DecodeError::BinarySubtype),
            Some(subtype) => binary_of(
                base64_decoding(encode_utf8(payload)),
                subtype_decoding(encode_utf8(subtype)),
            ),
        },
    }
}

/// A single hexadecimal digit stands for the byte of its value; a single
/// byte that is no digit is reported at offset 0.
pub proof fn lemma_subtype_of_one_digit(digit: u8)
    ensures
        subtype_decoding(seq![digit]) == if is_hex_digit(digit) {
            Ok::<Seq<u8>, HexError>(seq![hex_digit_value(digit) as u8])
        } else {
            Err::<Seq<u8>, HexError>(HexError::InvalidCharacter { c: digit as char, index: 0 })
        },
        hex_decoding(seq![0x30u8] + seq![digit]) == if is_hex_digit(digit) {
            Ok::<Seq<u8>, HexError>(seq![hex_digit_value(digit) as u8])
        } else {
            Err::<Seq<u8>, HexError>(HexError::InvalidCharacter { c: digit as char, index: 1 })
        },
{
    let padded = seq![0x30u8] + seq![digit];
    assert(padded.len() == 2 && padded[0] == 0x30u8 && padded[1] == digit);
    let rest = padded.drop_first();
    assert(rest.len() == 1 && rest[0] == digit);
    assert(rest.drop_first().len() == 0);
    assert(first_non_hex(rest.drop_first()) == 0);
    assert(first_non_hex(rest) == if is_hex_digit(digit) { 1int } else { 0int });
    assert(first_non_hex(padded) == 1 + first_non_hex(rest));
    if is_hex_digit(digit) {
        assert(hex_decoding(padded)->Ok_0 =~= seq![hex_digit_value(digit) as u8]);
    }
}

/// Reads the text of a subtype: one or two hexadecimal digits.
pub fn decode_subtype(text: &[u8]) -> (r: Result<Vec<u8>, HexError>)
    ensures
        bytes_outcome(r) == subtype_decoding(text@),
{
    if text.len() == 1 {
        let mut padded: Vec<u8> = Vec::new();
        padded.push(0x30);
        padded.push(text[0]);
        assert(padded@ =~= seq![0x30u8] + text@);
        proof {
            assert(text@ =~= seq![text@[0]]);
            lemma_subtype_of_one_digit(text@[0]);
        }
        let decoded = hex_decode(padded.as_slice());
        assert(bytes_outcome(decoded) == hex_decoding(seq![0x30u8] + seq![text@[0]]));
        match decoded {
            Err(HexError::InvalidCharacter { c, index }) => Err(
                HexError::InvalidCharacter { c, index: index - 1 },
            ),
            other => other,
        }
    } else {
        hex_decode(text)
    }
}

/// Puts a decoded payload and a decoded subtype together.
pub fn binary_from_decoded(
    payload: Result<Vec<u8>, Base64Error>,
    subtype: Result<Vec<u8>, HexError>,
) -> (r: Result<BsonValue, DecodeError>)
    ensures
        outcome(r) == binary_of(bytes_outcome(payload), bytes_outcome(subtype)),
{
    let bytes = match payload {
        Ok(bytes) => bytes,
        Err(cause) => {
            return Err(DecodeError::BinaryPayloadFormat(cause));
        },
    };
    let tag = match subtype {
        Ok(tag) => tag,
        Err(cause) => {
            return Err(DecodeError::BinarySubtypeFormat(cause));
        },
    };
    if tag.len() == 1 {
        Ok(BsonValue::Binary(Binary { bytes, subtype: BinarySubtype::from_byte(tag[0]) }))
    } else {
        Err(DecodeError::BinarySubtypeLength { len: tag.len() })
    }
}

/// Decodes the value under `$binary`.
pub fn binary(target: &Value) -> (r: Result<BsonValue, DecodeError>)
    ensures
        outcome(r) == decoded_binary(*target),
{
    let payload = match target.get("base64") {
        Some(Value::Text(text)) => text,
        _ => {
            return Err(DecodeError::BinaryPayload);
        },
    };
    let subtype = match target.get("subType") {
        Some(Value::Text(text)) => text,
        _ => {
            return Err(DecodeError::BinarySubtype);
        },
    };
    binary_from_decoded(
        base64_decode(payload.as_str().as_bytes()),
        decode_subtype(subtype.as_str().as_bytes()),
    )
}

/// What the value under `$regularExpression` decodes to: the pattern as it
/// stands and the options in normal form.
pub open spec fn decoded_regex(target: Value) -> Result<BsonModel, DecodeError> {
    match target.text_field("pattern"@) {
        None => Err(DecodeError::RegexPattern),
        Some(pattern) => match target.text_field("options"@) {
            None => Err(DecodeError::RegexOptions),
            Some(options) => Ok(
                BsonModel::RegularExpression { pattern, options: normalized_options(options) },
            ),
        },
    }
}

/// Decodes the value under `$regularExpression`.
pub fn regex(target: &Value) -> (r: Result<BsonValue, DecodeError>)
    ensures
        outcome(r) == decoded_regex(*target),
        r matches Ok(BsonValue::RegularExpression(regex)) ==> regex.well_formed(),
{
    proof {
        if let Some(options) = target.text_field("options"@) {
            lemma_normalized_options_shape(options);
        }
    }
    let pattern = match target.get("pattern") {
        Some(Value::Text(text)) => text,
        _ => {
            return Err(DecodeError::RegexPattern);
        },
    };
    let options = match target.get("options") {
        Some(Value::Text(text)) => text,
        _ => {
            return Err(DecodeError::RegexOptions);
        },
    };
    Ok(
        BsonValue::RegularExpression(
            Regex { pattern: pattern.clone(), options: normalize_options(options.as_str()) },
        ),
    )
}

/// The timestamp made of the numbers `t` and `i`: `t` is divided by 1000 and
/// rounded down, `i` is rounded down, and both must then be unsigned 32-bit
/// numbers. (Rounding `t` down before the division changes nothing: the
/// divisor is a whole number.)
pub open spec fn timestamp_of(t: Double, i: Double) -> Result<BsonModel, DecodeError> {
    if !(t.finite() && 0 <= t.floor() / 1000 <= u32::MAX) {
        Err(DecodeError::TimestampTimeRange)
    } else if !(i.finite() && 0 <= i.floor() <= u32::MAX) {
        Err(DecodeError::TimestampIncrementRange)
    } else {
        Ok(
            BsonModel::Timestamp(
                Timestamp { time: (t.floor() / 1000) as u32, increment: i.floor() as u32 },
            ),
        )
    }
}

/// What the value under `$timestamp` decodes to.
pub open spec fn decoded_timestamp(target: Value) -> Result<BsonModel, DecodeError> {
    match target.number_field("t"@) {
        None => Err(DecodeError::TimestampTime),
        Some(t) => match target.number_field("i"@) {
            None => Err(DecodeError::TimestampIncrement),
            Some(i) => timestamp_of(t, i),
        },
    }
}

/// Makes a timestamp of the numbers `t` and `i`.
pub fn timestamp_from_numbers(t: Double, i: Double) -> (r: Result<BsonValue, DecodeError>)
    ensures
        outcome(r) == timestamp_of(t, i),
{
    let time: u32 = match t.floor_i64() {
        Some(whole) => {
            if 0 <= whole && whole / 1000 <= 0xffff_ffff {
                (whole / 1000) as u32
            } else {
                return Err(DecodeError::TimestampTimeRange);
            }
        },
        None => {
            return Err(DecodeError::TimestampTimeRange);
        },
    };
    let increment: u32 = match i.floor_i64() {
        Some(whole) => {
            if 0 <= whole && whole <= 0xffff_ffff {
                whole as u32
            } else {
                return Err(DecodeError::TimestampIncrementRange);
            }
        },
        None => {
            return Err(DecodeError::TimestampIncrementRange);
        },
    };
    Ok(BsonValue::Timestamp(Timestamp { time, increment }))
}

/// Decodes the value under `$timestamp`.
pub fn timestamp(target: &Value) -> (r: Result<BsonValue, DecodeError>)
    ensures
        outcome(r) == decoded_timestamp(*target),
{
    let t = match target.get("t") {
        Some(Value::Number(number)) => *number,
        _ => {
            return Err(DecodeError::TimestampTime);
        },
    };
    let i = match target.get("i") {
        Some(Value::Number(number)) => *number,
        _ => {
            return Err(DecodeError::TimestampIncrement);
        },
    };
    timestamp_from_numbers(t, i)
}

/// The object id that a text of twenty-four hexadecimal digits stands for.
pub open spec fn oid_of(text: Seq<char>) -> Result<BsonModel, DecodeError> {
    match hex_decoding(encode_utf8(text)) {
        Err(cause) => Err(DecodeError::OidFormat(cause)),
        Ok(bytes) => if bytes.len() == 12 {
            Ok(BsonModel::ObjectId(bytes))
        } else {
            Err(DecodeError::OidLength { len: bytes.len() as usize })
        },
    }
}

/// What the value under `$oid` decodes to.
pub open spec fn decoded_oid(target: Value) -> Result<BsonModel, DecodeError> {
    match target.text() {
        None => Err(DecodeError::OidValue),
        Some(text) => oid_of(text),
    }
}

/// Decodes the value under `$oid`.
pub fn oid(target: &Value) -> (r: Result<BsonValue, DecodeError>)
    ensures
        outcome(r) == decoded_oid(*target),
{
    let text = match target {
        Value::Text(text) => text,
        _ => {
            return Err(DecodeError::OidValue);
        },
    };
    let decoded = match hex_decode(text.as_str().as_bytes()) {
        Ok(decoded) => decoded,
        Err(cause) => {
            return Err(DecodeError::OidFormat(cause));
        },
    };
    if decoded.len() != 12 {
        return Err(DecodeError::OidLength { len: decoded.len() });
    }
    let mut bytes: [u8; 12] = [0u8; 12];
    let mut at: usize = 0;
    while at < 12
        invariant
            at <= 12 == decoded@.len(),
            forall|k: int| 0 <= k < at ==> bytes@[k] == decoded@[k],
        decreases 12 - at,
    {
        bytes[at] = decoded[at];
        at = at + 1;
    }
    assert(bytes@ =~= decoded@);
    Ok(BsonValue::ObjectId(ObjectId { bytes }))
}

/// What the value under `$date` decodes to: the instant that lies as many
/// milliseconds from the Unix epoch as the 64-bit integer under
/// `$numberLong` says. Only reading that integer can fail.
pub open spec fn decoded_date(target: Value) -> Result<BsonModel, DecodeError> {
    match target.field("$numberLong"@) {
        None => Err(DecodeError::NumberValue(NumberKind::Long)),
        Some(value) => match decoded_long(value) {
            Err(error) => Err(error),
            Ok(millis) => Ok(BsonModel::DateTime(DateTime::of_millis(millis))),
        },
    }
}

/// Decodes the value under `$date`.
pub fn date(target: &Value) -> (r: Result<BsonValue, DecodeError>)
    ensures
        outcome(r) == decoded_date(*target),
{
    let millis = match target.get("$numberLong") {
        Some(value) => long(value)?,
        None => {
            return Err(DecodeError::NumberValue(NumberKind::Long));
        },
    };
    Ok(BsonValue::DateTime(DateTime::from_millis(millis)))
}

/// An object id written as twenty-four hexadecimal digits decodes, and its
/// twelve bytes written as hexadecimal again are the same digits in lower
/// case.
pub proof fn lemma_oid_round_trip(target: Value)
    requires
        target.text() matches Some(text) && is_hex_text(text) && text.len() == 24,
    ensures
        decoded_oid(target) matches Ok(BsonModel::ObjectId(bytes)) && bytes.len() == 12
            && hex_encoding(bytes) == lower_hex_text(target.text()->Some_0),
{
    lemma_hex_round_trip(target.text()->Some_0);
}

/// Where the value under `$numberLong` reads as `millis`, the value under
/// `$date` decodes to an instant that lies `millis` milliseconds from the
/// epoch. The instant is well formed unless `millis` is negative and not a
/// whole number of seconds.
pub proof fn lemma_date_recombines(target: Value, millis: i64)
    requires
        target.field("$numberLong"@) matches Some(value) && decoded_long(value) == Ok::<
            i64,
            DecodeError,
        >(millis),
    ensures
        decoded_date(target) matches Ok(BsonModel::DateTime(instant)) && instant.millis() == millis
            && (instant.well_formed() <==> (millis >= 0 || millis as int % 1000 == 0)),
{
}

/// A subtype written with no character, or with more than two, never gives a
/// binary value: only one or two hexadecimal digits decode to the one byte
/// asked for.
pub proof fn lemma_binary_subtype_length(target: Value)
    requires
        target.text_field("subType"@) matches Some(subtype) && (subtype.len() == 0
            || subtype.len() > 2),
    ensures
        decoded_binary(target) is Err,
{
    let subtype = target.text_field("subType"@)->Some_0;
    lemma_utf8_no_shorter(subtype);
    if subtype.len() == 0 {
        assert(encode_utf8(subtype).len() == 0);
    }
}

/// The reserved keys that mark a wrapper object.
#[derive(Clone, Copy, Debug, PartialEq, Eq)]
pub enum Wrapper {
    /// `$oid`
    Oid,
    /// `$date`
    Date,
    /// `$numberDouble`
    NumberDouble,
    /// `$numberInt`
    NumberInt,
    /// `$numberLong`
    NumberLong,
    /// `$minKey`
    MinKey,
    /// `$maxKey`
    MaxKey,
    /// `$regularExpression`
    RegularExpression,
    /// `$timestamp`
    Timestamp,
    /// `$binary`
    Binary,
}

/// The wrapper that a key marks, if it is one of the reserved keys.
pub open spec fn wrapper_of(key: Seq<char>) -> Option<Wrapper> {
    if key == "$oid"@ {
        Some(Wrapper::Oid)
    } else if key == "$date"@ {
        Some(Wrapper::Date)
    } else if key == "$numberDouble"@ {
        Some(Wrapper::NumberDouble)
    } else if key == "$numberInt"@ {
        Some(Wrapper::NumberInt)
    } else if key == "$numberLong"@ {
        Some(Wrapper::NumberLong)
    } else if key == "$minKey"@ {
        Some(Wrapper::MinKey)
    } else if key == "$maxKey"@ {
        Some(Wrapper::MaxKey)
    } else if key == "$regularExpression"@ {
        Some(Wrapper::RegularExpression)
    } else if key == "$timestamp"@ {
        Some(Wrapper::Timestamp)
    } else if key == "$binary"@ {
        Some(Wrapper::Binary)
    } else {
        None
    }
}

/// What the value stored under a wrapper key decodes to. The value under
/// `$minKey` and `$maxKey` is not looked at.
pub open spec fn decoded(wrapper: Wrapper, value: Value) -> Result<BsonModel, DecodeError> {
    match wrapper {
        Wrapper::Oid => decoded_oid(value),
        Wrapper::Date => decoded_date(value),
        Wrapper::NumberDouble => match decoded_double(value) {
            Ok(number) => Ok(BsonModel::Double(number)),
            Err(error) => Err(error),
        },
        Wrapper::NumberInt => match decoded_int(value) {
            Ok(number) => Ok(BsonModel::Int32(number)),
            Err(error) => Err(error),
        },
        Wrapper::NumberLong => match decoded_long(value) {
            Ok(number) => Ok(BsonModel::Int64(number)),
            Err(error) => Err(error),
        },
        Wrapper::MinKey => Ok(BsonModel::MinKey),
        Wrapper::MaxKey => Ok(BsonModel::MaxKey),
        Wrapper::RegularExpression => decoded_regex(value),
        Wrapper::Timestamp => decoded_timestamp(value),
        Wrapper::Binary => decoded_binary(value),
    }
}

/// What a value is found to be: `Ok(None)` where it is no wrapper object
/// (it has no members, or its first key is no reserved key), else what the
/// value under its first key decodes to. Members after the first are not
/// looked at.
pub open spec fn inspected(target: Value) -> Result<Option<BsonModel>, DecodeError> {
    let members = target.members();
    if members.len() == 0 {
        Ok(None)
    } else {
        match members[0].key {
            Key::Symbol => Err(DecodeError::ObjectKey),
            Key::Name(key) => match wrapper_of(key@) {
                None => Ok(None),
                Some(wrapper) => match decoded(wrapper, members[0].value) {
                    Ok(value) => Ok(Some(value)),
                    Err(error) => Err(error),
                },
            },
        }
    }
}

/// The outcome of an inspection, with the value taken by its view.
pub open spec fn inspection(r: Result<Option<BsonValue>, DecodeError>) -> Result<
    Option<BsonModel>,
    DecodeError,
> {
    match r {
        Ok(Some(value)) => Ok(Some(value@)),
        Ok(None) => Ok(None),
        Err(error) => Err(error),
    }
}

/// Reads a key as a wrapper key.
pub fn wrapper_for(key: &str) -> (r: Option<Wrapper>)
    ensures
        r == wrapper_of(key@),
{
    if same_text(key, "$oid") {
        Some(Wrapper::Oid)
    } else if same_text(key, "$date") {
        Some(Wrapper::Date)
    } else if same_text(key, "$numberDouble") {
        Some(Wrapper::NumberDouble)
    } else if same_text(key, "$numberInt") {
        Some(Wrapper::NumberInt)
    } else if same_text(key, "$numberLong") {
        Some(Wrapper::NumberLong)
    } else if same_text(key, "$minKey") {
        Some(Wrapper::MinKey)
    } else if same_text(key, "$maxKey") {
        Some(Wrapper::MaxKey)
    } else if same_text(key, "$regularExpression") {
        Some(Wrapper::RegularExpression)
    } else if same_text(key, "$timestamp") {
        Some(Wrapper::Timestamp)
    } else if same_text(key, "$binary") {
        Some(Wrapper::Binary)
    } else {
        None
    }
}

/// Decodes the value stored under a wrapper key.
pub fn decode(wrapper: Wrapper, value: &Value) -> (r: Result<BsonValue, DecodeError>)
    ensures
        outcome(r) == decoded(wrapper, *value),
{
    match wrapper {
        Wrapper::Oid => oid(value),
        Wrapper::Date => date(value),
        Wrapper::NumberDouble => match double(value) {
            Ok(number) => Ok(BsonValue::Double(number)),
            Err(error) => Err(error),
        },
        Wrapper::NumberInt => match int32(value) {
            Ok(number) => Ok(BsonValue::Int32(number)),
            Err(error) => Err(error),
        },
        Wrapper::NumberLong => match long(value) {
            Ok(number) => Ok(BsonValue::Int64(number)),
            Err(error) => Err(error),
        },
        Wrapper::MinKey => Ok(BsonValue::MinKey),
        Wrapper::MaxKey => Ok(BsonValue::MaxKey),
        Wrapper::RegularExpression => regex(value),
        Wrapper::Timestamp => timestamp(value),
        Wrapper::Binary => binary(value),
    }
}

/// Inspects a value for an Extended JSON wrapper.
///
/// Returns `Ok(None)` where the value is no wrapper object, so that the
/// caller goes on into its members; `Ok(Some(..))` with the decoded value
/// where its first key is a reserved key and the value under it decodes; and
/// the failure of that decode otherwise.
pub fn inspect(target: &Value) -> (r: Result<Option<BsonValue>, DecodeError>)
    ensures
        inspection(r) == inspected(*target),
{
    let members = match target {
        Value::Object(members) => members,
        _ => {
            return Ok(None);
        },
    };
    if members.len() == 0 {
        return Ok(None);
    }
    let first = &members[0];
    let key = match &first.key {
        Key::Name(key) => key,
        Key::Symbol => {
            return Err(DecodeError::ObjectKey);
        },
    };
    match wrapper_for(key.as_str()) {
        None => Ok(None),
        Some(wrapper) => match decode(wrapper, &first.value) {
            Ok(value) => Ok(Some(value)),
            Err(error) => Err(error),
        },
    }
}

} // verus!
