//! The typed values a decode produces.

use crate::codec::{hex_encode, hex_encoding};
use crate::double::Double;
use crate::error::DecodeError;
use crate::options::{in_order, is_whitespace};
use vstd::prelude::*;

verus! {

/// Twelve bytes that identify a document.
#[derive(Clone, Copy, Debug, PartialEq, Eq)]
pub struct ObjectId {
    pub bytes: [u8; 12],
}

/// An instant in UTC: whole seconds since the Unix epoch and an offset in
/// nanoseconds from that second.
///
/// Both parts come from one division that rounds toward zero, so the offset
/// has the sign of the instant. Before the epoch an instant that is not on a
/// whole second therefore has a negative offset, which is no valid offset
/// within a second; see [`DateTime::well_formed`].
#[derive(Clone, Copy, Debug, PartialEq, Eq)]
pub struct DateTime {
    pub secs: i64,
    pub nanos: i32,
}

/// An internal MongoDB timestamp.
#[derive(Clone, Copy, Debug, PartialEq, Eq)]
pub struct Timestamp {
    pub time: u32,
    pub increment: u32,
}

/// A regular expression: its pattern and its option flags.
#[derive(Clone, Debug, PartialEq, Eq)]
pub struct Regex {
    pub pattern: String,
    pub options: String,
}

/// The one-byte tag that says what kind of data a binary value holds.
#[derive(Clone, Copy, Debug, PartialEq, Eq)]
pub enum BinarySubtype {
    /// Tag 0: bytes of no particular kind.
    Generic,
    /// Tag 1.
    Function,
    /// Tag 2: the older form of generic bytes.
    BinaryOld,
    /// Tag 3: the older form of a UUID.
    UuidOld,
    /// Tag 4.
    Uuid,
    /// Tag 5.
    Md5,
    /// Any other tag.
    UserDefined(u8),
}

/// A byte sequence with its subtype.
#[derive(Clone, Debug, PartialEq, Eq)]
pub struct Binary {
    pub bytes: Vec<u8>,
    pub subtype: BinarySubtype,
}

/// A decoded value.
#[derive(Clone, Debug, PartialEq, Eq)]
pub enum BsonValue {
    Double(Double),
    ObjectId(ObjectId),
    DateTime(DateTime),
    Int32(i32),
    Int64(i64),
    MinKey,
    MaxKey,
    RegularExpression(Regex),
    Timestamp(Timestamp),
    Binary(Binary),
}

/// What a decoded value is, with strings and byte vectors as sequences.
pub enum BsonModel {
    Double(Double),
    ObjectId(Seq<u8>),
    DateTime(DateTime),
    Int32(i32),
    Int64(i64),
    MinKey,
    MaxKey,
    RegularExpression { pattern: Seq<char>, options: Seq<char> },
    Timestamp(Timestamp),
    Binary { bytes: Seq<u8>, subtype: BinarySubtype },
}

impl View for BsonValue {
    type V = BsonModel;

    open spec fn view(&self) -> BsonModel {
        match *self {
            BsonValue::Double(number) => BsonModel::Double(number),
            BsonValue::ObjectId(id) => BsonModel::ObjectId(id.bytes@),
            BsonValue::DateTime(instant) => BsonModel::DateTime(instant),
            BsonValue::Int32(number) => BsonModel::Int32(number),
            BsonValue::Int64(number) => BsonModel::Int64(number),
            BsonValue::MinKey => BsonModel::MinKey,
            BsonValue::MaxKey => BsonModel::MaxKey,
            BsonValue::RegularExpression(regex) => BsonModel::RegularExpression {
                pattern: regex.pattern@,
                options: regex.options@,
            },
            BsonValue::Timestamp(stamp) => BsonModel::Timestamp(stamp),
            BsonValue::Binary(binary) => BsonModel::Binary {
                bytes: binary.bytes@,
                subtype: binary.subtype,
            },
        }
    }
}

/// The outcome of a decode, with the value taken by its view.
pub open spec fn outcome(r: Result<BsonValue, DecodeError>) -> Result<BsonModel, DecodeError> {
    match r {
        Ok(value) => Ok(value@),
        Err(error) => Err(error),
    }
}

impl ObjectId {
    /// The id as twenty-four lower-case hexadecimal digits.
    pub fn to_hex(&self) -> (r: String)
        ensures
            r@ == hex_encoding(self.bytes@),
    {
        hex_encode(self.bytes.as_slice())
    }
}

impl BinarySubtype {
    /// The subtype that a tag byte stands for. Tags without a name of their
    /// own are user-defined.
    pub open spec fn of_byte(tag: u8) -> BinarySubtype {
        if tag == 0 {
            BinarySubtype::Generic
        } else if tag == 1 {
            BinarySubtype::Function
        } else if tag == 2 {
            BinarySubtype::BinaryOld
        } else if tag == 3 {
            BinarySubtype::UuidOld
        } else if tag == 4 {
            BinarySubtype::Uuid
        } else if tag == 5 {
            BinarySubtype::Md5
        } else {
            BinarySubtype::UserDefined(tag)
        }
    }

    /// The tag byte of a subtype.
    pub open spec fn byte(self) -> u8 {
        match self {
            BinarySubtype::Generic => 0,
            BinarySubtype::Function => 1,
            BinarySubtype::BinaryOld => 2,
            BinarySubtype::UuidOld => 3,
            BinarySubtype::Uuid => 4,
            BinarySubtype::Md5 => 5,
            BinarySubtype::UserDefined(tag) => tag,
        }
    }

    /// Reads a tag byte as a subtype; the byte can be had back with
    /// [`BinarySubtype::to_byte`].
    pub fn from_byte(tag: u8) -> (r: BinarySubtype)
        ensures
            r == BinarySubtype::of_byte(tag),
            r.byte() == tag,
    {
        match tag {
            0 => BinarySubtype::Generic,
            1 => BinarySubtype::Function,
            2 => BinarySubtype::BinaryOld,
            3 => BinarySubtype::UuidOld,
            4 => BinarySubtype::Uuid,
            5 => BinarySubtype::Md5,
            _ => BinarySubtype::UserDefined(tag),
        }
    }

    /// The tag byte of the subtype.
    pub fn to_byte(&self) -> (r: u8)
        ensures
            r == self.byte(),
    {
        match self {
            BinarySubtype::Generic => 0,
            BinarySubtype::Function => 1,
            BinarySubtype::BinaryOld => 2,
            BinarySubtype::UuidOld => 3,
            BinarySubtype::Uuid => 4,
            BinarySubtype::Md5 => 5,
            BinarySubtype::UserDefined(tag) => *tag,
        }
    }
}

/// The quotient of a division that rounds toward zero.
pub open spec fn truncated_quotient(dividend: int, divisor: int) -> int {
    if dividend >= 0 {
        dividend / divisor
    } else {
        -((-dividend) / divisor)
    }
}

/// The remainder of a division that rounds toward zero; it has the sign of
/// the dividend.
pub open spec fn truncated_remainder(dividend: int, divisor: int) -> int {
    dividend - divisor * truncated_quotient(dividend, divisor)
}

impl DateTime {
    /// The offset lies within one second, counted forward.
    pub open spec fn well_formed(self) -> bool {
        0 <= self.nanos < 1_000_000_000
    }

    /// Milliseconds since the Unix epoch, fractions of a millisecond dropped.
    pub open spec fn millis(self) -> int {
        self.secs * 1000 + truncated_quotient(self.nanos as int, 1_000_000)
    }

    /// The instant that lies `millis` milliseconds from the Unix epoch:
    /// seconds are the quotient by 1000, the offset is the remainder in
    /// nanoseconds, both rounded toward zero.
    pub open spec fn of_millis(millis: i64) -> DateTime {
        DateTime {
            secs: truncated_quotient(millis as int, 1000) as i64,
            nanos: (truncated_remainder(millis as int, 1000) * 1_000_000) as i32,
        }
    }

    /// The instant that lies `millis` milliseconds from the Unix epoch. It
    /// is well formed unless `millis` is negative and not a whole number of
    /// seconds.
    pub fn from_millis(millis: i64) -> (r: DateTime)
        ensures
            r == DateTime::of_millis(millis),
            r.millis() == millis,
            r.well_formed() <==> (millis >= 0 || millis as int % 1000 == 0),
    {
        if millis >= 0 {
            let secs: i64 = millis / 1000;
            let rest: i64 = millis % 1000;
            DateTime { secs, nanos: (rest * 1_000_000) as i32 }
        } else {
            let magnitude: u64 = ((-(millis + 1)) as u64) + 1;
            let secs: i64 = -((magnitude / 1000) as i64);
            let rest: i64 = -((magnitude % 1000) as i64);
            DateTime { secs, nanos: (rest * 1_000_000) as i32 }
        }
    }

    /// Whether the offset lies within one second, counted forward.
    pub fn is_well_formed(&self) -> (r: bool)
        ensures
            r == self.well_formed(),
    {
        0 <= self.nanos && self.nanos < 1_000_000_000
    }

    /// Milliseconds since the Unix epoch, where they fit in 64 bits.
    pub fn to_millis(&self) -> (r: Option<i64>)
        ensures
            r == if i64::MIN <= self.millis() <= i64::MAX {
                Some(self.millis() as i64)
            } else {
                None::<i64>
            },
    {
        let part: i128 = if self.nanos >= 0 {
            (self.nanos / 1_000_000) as i128
        } else {
            -(((-(self.nanos as i64)) / 1_000_000) as i128)
        };
        let total: i128 = (self.secs as i128) * 1000 + part;
        if -0x8000_0000_0000_0000 <= total && total <= 0x7fff_ffff_ffff_ffff {
            Some(total as i64)
        } else {
            None
        }
    }
}

impl Regex {
    /// The options are in normal form: sorted by code point, with no white
    /// space at either end.
    pub open spec fn well_formed(self) -> bool {
        let options = self.options@;
        &&& in_order(options)
        &&& options.len() > 0 ==> !is_whitespace(options[0]) && !is_whitespace(options.last())
    }
}

} // verus!
