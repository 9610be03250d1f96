//! Decoding of MongoDB Extended JSON (canonical form) wrapper objects into
//! typed BSON values.
//!
//! The entry point is [`inspect`]: it looks at the first key of an object and,
//! when that key is one of the reserved `$`-prefixed wrapper keys, decodes the
//! value stored under it. Anything else is reported as "no match", so that the
//! caller can go on walking the tree.
//!
//! - [`value`]: the parsed tree that is read.
//! - [`bson`]: the typed values that come out.
//! - [`extended`]: one decoder for each wrapper, and the dispatcher.
//! - [`number`], [`decimal`], [`double`]: numbers, from text and from
//!   double-precision bit patterns.
//! - [`options`]: the normal form of regular-expression options.
//! - [`codec`]: hexadecimal and Base64 text.
//! - [`error`]: the failures.
//! - [`text`]: strings as sequences of characters.

pub mod bson;
pub mod codec;
pub mod decimal;
pub mod double;
pub mod error;
pub mod extended;
pub mod number;
pub mod options;
pub mod text;
pub mod value;

pub use bson::{Binary, BinarySubtype, BsonModel, BsonValue, DateTime, ObjectId, Regex, Timestamp};
pub use decimal::{parse_i64, DecimalError};
pub use double::Double;
pub use extended::{
    binary, binary_from_decoded, date, decode, decode_subtype, inspect, oid, regex, timestamp,
    timestamp_from_numbers, wrapper_for, Wrapper,
};
pub use error::{Base64Error, DecodeError, ErrorKind, HexError, NumberKind};
pub use number::{double, int32, long};
pub use options::normalize_options;
pub use value::{Key, Member, Value};
