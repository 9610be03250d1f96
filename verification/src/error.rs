//! The failures a decode can end in.

use crate::codec::{
    base64_error_text, describe_base64_error, describe_hex_error, hex_error_text,
};
use vstd::prelude::*;
use vstd::string::*;

verus! {

/// Why a text is not the hexadecimal encoding of a byte sequence.
#[derive(Clone, Copy, Debug, PartialEq, Eq)]
pub enum HexError {
    /// The byte `c` at offset `index` is not one of `0-9`, `a-f`, `A-F`.
    InvalidCharacter { c: char, index: usize },
    /// The text has an odd number of bytes.
    OddLength,
    /// The text does not have the length of a fixed-size destination. No
    /// decode into a vector ends so.
    InvalidLength,
}

/// Why a text is not the Base64 encoding of a byte sequence.
#[derive(Clone, Copy, Debug, PartialEq, Eq)]
pub enum Base64Error {
    /// The byte at `offset` is outside the alphabet.
    InvalidByte { offset: usize, byte: u8 },
    /// The length of the text leaves a lone 6-bit group.
    InvalidLength,
    /// The last symbol, at `offset`, carries bits that would be thrown away.
    InvalidLastSymbol { offset: usize, byte: u8 },
}

/// The numeric wrapper a failed number belongs to.
#[derive(Clone, Copy, Debug, PartialEq, Eq)]
pub enum NumberKind {
    /// `$numberDouble`
    Double,
    /// `$numberInt`
    Int,
    /// `$numberLong`
    Long,
}

/// The two families of failure.
#[derive(Clone, Copy, Debug, PartialEq, Eq)]
pub enum ErrorKind {
    /// A required field is missing or has the wrong primitive type.
    Extraction,
    /// A field has the right type but its content does not parse.
    Format,
}

/// A failed decode: which wrapper, which field, and the underlying cause.
#[derive(Clone, Copy, Debug, PartialEq, Eq)]
pub enum DecodeError {
    /// The first key of the object is not a string.
    ObjectKey,
    /// The value under `$oid` is not a string.
    OidValue,
    /// The value under `$oid` is not hexadecimal.
    OidFormat(HexError),
    /// The value under `$oid` decodes to `len` bytes instead of twelve.
    OidLength { len: usize },
    /// The value is neither a number nor, where text is accepted, a string.
    NumberValue(NumberKind),
    /// The text is not a decimal integer.
    NumberFormat(NumberKind),
    /// The number is not an integer of the wrapper's width.
    NumberRange(NumberKind),
    /// `pattern` is missing or not a string.
    RegexPattern,
    /// `options` is missing or not a string.
    RegexOptions,
    /// `t` is missing or not a number.
    TimestampTime,
    /// `i` is missing or not a number.
    TimestampIncrement,
    /// `t` does not give an unsigned 32-bit number of seconds.
    TimestampTimeRange,
    /// `i` is not in the unsigned 32-bit range.
    TimestampIncrementRange,
    /// `base64` is missing or not a string.
    BinaryPayload,
    /// `subType` is missing or not a string.
    BinarySubtype,
    /// `base64` is not Base64.
    BinaryPayloadFormat(Base64Error),
    /// `subType` is not hexadecimal.
    BinarySubtypeFormat(HexError),
    /// `subType` decodes to `len` bytes instead of one.
    BinarySubtypeLength { len: usize },
}

impl NumberKind {
    /// The wrapper key of this kind of number.
    pub open spec fn key_text(self) -> Seq<char> {
        match self {
            NumberKind::Double => "$numberDouble"@,
            NumberKind::Int => "$numberInt"@,
            NumberKind::Long => "$numberLong"@,
        }
    }

    /// The wrapper key of this kind of number.
    pub fn key(&self) -> (r: &'static str)
        ensures
            r@ == self.key_text(),
    {
        match self {
            NumberKind::Double => "$numberDouble",
            NumberKind::Int => "$numberInt",
            NumberKind::Long => "$numberLong",
        }
    }
}

impl DecodeError {
    /// The family this failure belongs to.
    pub open spec fn kind_of(self) -> ErrorKind {
        match self {
            DecodeError::ObjectKey
            | DecodeError::OidValue
            | DecodeError::NumberValue(_)
            | DecodeError::RegexPattern
            | DecodeError::RegexOptions
            | DecodeError::TimestampTime
            | DecodeError::TimestampIncrement
            | DecodeError::BinaryPayload
            | DecodeError::BinarySubtype => ErrorKind::Extraction,
            _ => ErrorKind::Format,
        }
    }

    /// The family this failure belongs to.
    pub fn kind(&self) -> (r: ErrorKind)
        ensures
            r == self.kind_of(),
    {
        match self {
            DecodeError::ObjectKey
            | DecodeError::OidValue
            | DecodeError::NumberValue(_)
            | DecodeError::RegexPattern
            | DecodeError::RegexOptions
            | DecodeError::TimestampTime
            | DecodeError::TimestampIncrement
            | DecodeError::BinaryPayload
            | DecodeError::BinarySubtype => ErrorKind::Extraction,
            _ => ErrorKind::Format,
        }
    }

    /// The wrapper key under which the failure arose; `None` where the key
    /// itself could not be read.
    pub open spec fn wrapper_text(self) -> Option<Seq<char>> {
        match self {
            DecodeError::ObjectKey => None,
            DecodeError::OidValue | DecodeError::OidFormat(_) | DecodeError::OidLength { .. } => Some(
                "$oid"@,
            ),
            DecodeError::NumberValue(k) | DecodeError::NumberFormat(k) | DecodeError::NumberRange(
                k,
            ) => Some(k.key_text()),
            DecodeError::RegexPattern | DecodeError::RegexOptions => Some("$regularExpression"@),
            DecodeError::TimestampTime
            | DecodeError::TimestampIncrement
            | DecodeError::TimestampTimeRange
            | DecodeError::TimestampIncrementRange => Some("$timestamp"@),
            DecodeError::BinaryPayload
            | DecodeError::BinarySubtype
            | DecodeError::BinaryPayloadFormat(_)
            | DecodeError::BinarySubtypeFormat(_)
            | DecodeError::BinarySubtypeLength { .. } => Some("$binary"@),
        }
    }

    /// The wrapper key under which the failure arose; `None` where the key
    /// itself could not be read.
    pub fn wrapper(&self) -> (r: Option<&'static str>)
        ensures
            match r {
                Some(key) => self.wrapper_text() == Some(key@),
                None => self.wrapper_text() is None,
            },
    {
        match self {
            DecodeError::ObjectKey => None,
            DecodeError::OidValue | DecodeError::OidFormat(_) | DecodeError::OidLength { .. } => Some(
                "$oid",
            ),
            DecodeError::NumberValue(k) | DecodeError::NumberFormat(k) | DecodeError::NumberRange(
                k,
            ) => Some(k.key()),
            DecodeError::RegexPattern | DecodeError::RegexOptions => Some("$regularExpression"),
            DecodeError::TimestampTime
            | DecodeError::TimestampIncrement
            | DecodeError::TimestampTimeRange
            | DecodeError::TimestampIncrementRange => Some("$timestamp"),
            DecodeError::BinaryPayload
            | DecodeError::BinarySubtype
            | DecodeError::BinaryPayloadFormat(_)
            | DecodeError::BinarySubtypeFormat(_)
            | DecodeError::BinarySubtypeLength { .. } => Some("$binary"),
        }
    }

    /// What went wrong and under which wrapper key, without the cause.
    pub open spec fn summary_text(self) -> Seq<char> {
        match self {
            DecodeError::ObjectKey => "failed to extract object key"@,
            DecodeError::OidValue => "failed to extract object id value"@,
            DecodeError::OidFormat(_) | DecodeError::OidLength { .. } => "error in ObjectID value"@,
            DecodeError::NumberValue(NumberKind::Double) => "invalid value in $numberDouble"@,
            DecodeError::NumberValue(NumberKind::Int) => "invalid value in $numberInt"@,
            DecodeError::NumberValue(NumberKind::Long) => "invalid value in $numberLong"@,
            DecodeError::NumberFormat(NumberKind::Double) => "malformed number in $numberDouble"@,
            DecodeError::NumberFormat(NumberKind::Int) => "malformed number in $numberInt"@,
            DecodeError::NumberFormat(NumberKind::Long) => "malformed number in $numberLong"@,
            DecodeError::NumberRange(NumberKind::Double) => "number out of range in $numberDouble"@,
            DecodeError::NumberRange(NumberKind::Int) => "number out of range in $numberInt"@,
            DecodeError::NumberRange(NumberKind::Long) => "number out of range in $numberLong"@,
            DecodeError::RegexPattern => "invalid pattern in $regularExpression"@,
            DecodeError::RegexOptions => "invalid options in $regularExpression"@,
            DecodeError::TimestampTime => "invalid t in $timestamp"@,
            DecodeError::TimestampIncrement => "invalid i in $timestamp"@,
            DecodeError::TimestampTimeRange => "t out of range in $timestamp"@,
            DecodeError::TimestampIncrementRange => "i out of range in $timestamp"@,
            DecodeError::BinaryPayload | DecodeError::BinaryPayloadFormat(_) =>
                "invalid base64 in $binary"@,
            DecodeError::BinarySubtype
            | DecodeError::BinarySubtypeFormat(_)
            | DecodeError::BinarySubtypeLength { .. } => "invalid subType in $binary"@,
        }
    }

    /// What went wrong and under which wrapper key, without the cause.
    pub fn summary(&self) -> (r: &'static str)
        ensures
            r@ == self.summary_text(),
    {
        match self {
            DecodeError::ObjectKey => "failed to extract object key",
            DecodeError::OidValue => "failed to extract object id value",
            DecodeError::OidFormat(_) | DecodeError::OidLength { .. } => "error in ObjectID value",
            DecodeError::NumberValue(NumberKind::Double) => "invalid value in $numberDouble",
            DecodeError::NumberValue(NumberKind::Int) => "invalid value in $numberInt",
            DecodeError::NumberValue(NumberKind::Long) => "invalid value in $numberLong",
            DecodeError::NumberFormat(NumberKind::Double) => "malformed number in $numberDouble",
            DecodeError::NumberFormat(NumberKind::Int) => "malformed number in $numberInt",
            DecodeError::NumberFormat(NumberKind::Long) => "malformed number in $numberLong",
            DecodeError::NumberRange(NumberKind::Double) => "number out of range in $numberDouble",
            DecodeError::NumberRange(NumberKind::Int) => "number out of range in $numberInt",
            DecodeError::NumberRange(NumberKind::Long) => "number out of range in $numberLong",
            DecodeError::RegexPattern => "invalid pattern in $regularExpression",
            DecodeError::RegexOptions => "invalid options in $regularExpression",
            DecodeError::TimestampTime => "invalid t in $timestamp",
            DecodeError::TimestampIncrement => "invalid i in $timestamp",
            DecodeError::TimestampTimeRange => "t out of range in $timestamp",
            DecodeError::TimestampIncrementRange => "i out of range in $timestamp",
            DecodeError::BinaryPayload | DecodeError::BinaryPayloadFormat(_) =>
                "invalid base64 in $binary",
            DecodeError::BinarySubtype
            | DecodeError::BinarySubtypeFormat(_)
            | DecodeError::BinarySubtypeLength { .. } => "invalid subType in $binary",
        }
    }

    /// The cause of the failure: where a text did not decode, in the words
    /// of the decoder that found it; where an object id decoded to another
    /// number of bytes than twelve, a sentence that says so.
    pub open spec fn cause_text(self) -> Option<Seq<char>> {
        match self {
            DecodeError::OidFormat(cause) | DecodeError::BinarySubtypeFormat(cause) => Some(
                hex_error_text(cause),
            ),
            DecodeError::OidLength { .. } => Some("the digits must stand for twelve bytes"@),
            DecodeError::BinaryPayloadFormat(cause) => Some(base64_error_text(cause)),
            _ => None,
        }
    }

    /// The message of the failure: the summary, then, where there is a
    /// cause, a colon, a space and the cause.
    pub open spec fn message_text(self) -> Seq<char> {
        described(self.summary_text(), self.cause_text())
    }

    /// The message of the failure: what went wrong, under which wrapper key,
    /// and the underlying cause.
    pub fn message(&self) -> (r: String)
        ensures
            r@ == self.message_text(),
    {
        match self {
            DecodeError::OidFormat(cause) | DecodeError::BinarySubtypeFormat(cause) => {
                let cause = describe_hex_error(*cause);
                describe(self.summary(), Some(cause.as_str()))
            },
            DecodeError::OidLength { .. } => describe(
                self.summary(),
                Some("the digits must stand for twelve bytes"),
            ),
            DecodeError::BinaryPayloadFormat(cause) => {
                let cause = describe_base64_error(*cause);
                describe(self.summary(), Some(cause.as_str()))
            },
            _ => describe(self.summary(), None),
        }
    }
}

/// A summary followed by its cause, where there is one.
pub open spec fn described(summary: Seq<char>, cause: Option<Seq<char>>) -> Seq<char> {
    match cause {
        Some(cause) => summary + ": "@ + cause,
        None => summary,
    }
}

/// Writes a summary and, where there is one, its cause behind a colon.
pub fn describe(summary: &str, cause: Option<&str>) -> (r: String)
    ensures
        r@ == described(
            summary@,
            match cause {
                Some(cause) => Some(cause@),
                None => None,
            },
        ),
{
    let mut message = String::from_str(summary);
    match cause {
        Some(cause) => {
            message.append(": ");
            message.append(cause);
        },
        None => {},
    }
    message
}

} // verus!
