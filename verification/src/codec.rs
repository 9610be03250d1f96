//! Hexadecimal and Base64 text.
//!
//! The decoding and encoding itself is done by the `hex` and `base64` crates.
//! What they return is stated here: for hexadecimal text by a definition; for
//! Base64 text, and for the wording of the two crates' errors, by a name.

use crate::error::{Base64Error, HexError};
use vstd::prelude::*;
use vstd::utf8::*;

verus! {

/// One of `0-9`, `a-f`, `A-F`.
pub open spec fn is_hex_digit(byte: u8) -> bool {
    ||| 0x30 <= byte <= 0x39
    ||| 0x41 <= byte <= 0x46
    ||| 0x61 <= byte <= 0x66
}

/// The number that a hexadecimal digit stands for.
pub open spec fn hex_digit_value(byte: u8) -> int {
    if 0x30 <= byte <= 0x39 {
        byte - 0x30
    } else if 0x41 <= byte <= 0x46 {
        byte - 0x41 + 10
    } else {
        byte - 0x61 + 10
    }
}

/// The offset of the first byte that is not a hexadecimal digit; the length
/// of the text where there is none.
pub open spec fn first_non_hex(data: Seq<u8>) -> int
    decreases data.len(),
{
    if data.len() == 0 || !is_hex_digit(data[0]) {
        0
    } else {
        1 + first_non_hex(data.drop_first())
    }
}

/// The bytes that a hexadecimal text stands for, two digits to the byte and
/// the high digit first. A text of odd length is refused as such; otherwise
/// the first byte that is no digit is reported.
pub open spec fn hex_decoding(data: Seq<u8>) -> Result<Seq<u8>, HexError> {
    let bad = first_non_hex(data);
    if data.len() % 2 != 0 {
        Err(HexError::OddLength)
    } else if bad < data.len() {
        Err(HexError::InvalidCharacter { c: data[bad] as char, index: bad as usize })
    } else {
        Ok(
            Seq::new(
                data.len() / 2,
                |i: int| (16 * hex_digit_value(data[2 * i]) + hex_digit_value(data[2 * i + 1])) as u8,
            ),
        )
    }
}

/// The lower-case hexadecimal digit for a number below sixteen.
pub open spec fn hex_digit(value: int) -> char {
    if value < 10 {
        (0x30 + value) as u8 as char
    } else {
        (0x61 + value - 10) as u8 as char
    }
}

/// The lower-case hexadecimal text of a byte sequence, two digits to the
/// byte and the high digit first.
pub open spec fn hex_encoding(bytes: Seq<u8>) -> Seq<char> {
    Seq::new(
        2 * bytes.len(),
        |i: int|
            if i % 2 == 0 {
                hex_digit(bytes[i / 2] as int / 16)
            } else {
                hex_digit(bytes[i / 2] as int % 16)
            },
    )
}

/// One of the characters `0-9`, `a-f`, `A-F`.
pub open spec fn is_hex_char(c: char) -> bool {
    ||| '0' <= c <= '9'
    ||| 'A' <= c <= 'F'
    ||| 'a' <= c <= 'f'
}

/// Every character is a hexadecimal digit.
pub open spec fn is_hex_text(text: Seq<char>) -> bool {
    forall|i: int| 0 <= i < text.len() ==> is_hex_char(#[trigger] text[i])
}

/// The text with `A-F` in lower case.
pub open spec fn lower_hex_text(text: Seq<char>) -> Seq<char> {
    Seq::new(
        text.len(),
        |i: int|
            if 'A' <= text[i] <= 'F' {
                (text[i] as u8 + 0x20) as u8 as char
            } else {
                text[i]
            },
    )
}

/// Where every byte is a hexadecimal digit, the offset of the first that is
/// none is the length.
pub proof fn lemma_first_non_hex_of_digits(data: Seq<u8>)
    requires
        forall|i: int| 0 <= i < data.len() ==> is_hex_digit(#[trigger] data[i]),
    ensures
        first_non_hex(data) == data.len(),
    decreases data.len(),
{
    if data.len() > 0 {
        let rest = data.drop_first();
        assert forall|i: int| 0 <= i < rest.len() implies is_hex_digit(#[trigger] rest[i]) by {
            assert(rest[i] == data[i + 1]);
        }
        lemma_first_non_hex_of_digits(rest);
        assert(is_hex_digit(data[0]));
    }
}

/// Decoding a text of hexadecimal digits, an even number of them, and
/// encoding the bytes again gives the text back in lower case.
pub proof fn lemma_hex_round_trip(text: Seq<char>)
    requires
        is_hex_text(text),
        text.len() % 2 == 0,
    ensures
        hex_decoding(encode_utf8(text)) is Ok,
        hex_decoding(encode_utf8(text))->Ok_0.len() == text.len() / 2,
        hex_encoding(hex_decoding(encode_utf8(text))->Ok_0) == lower_hex_text(text),
{
    let data = encode_utf8(text);
    assert(is_ascii_chars(text)) by {
        assert forall|i: int| 0 <= i < text.len() implies '\0' <= #[trigger] text[i] <= '\u{7f}' by {
            assert(is_hex_char(text[i]));
        }
    }
    is_ascii_chars_encode_utf8(text);
    assert forall|i: int| 0 <= i < data.len() implies is_hex_digit(#[trigger] data[i]) by {
        assert(is_hex_char(text[i]));
        assert(data[i] == text[i] as u8);
    }
    lemma_first_non_hex_of_digits(data);
    let bytes = hex_decoding(data)->Ok_0;
    let again = hex_encoding(bytes);
    let lower = lower_hex_text(text);
    assert(again.len() == lower.len());
    assert forall|k: int| 0 <= k < again.len() implies again[k] == lower[k] by {
        let at = k / 2;
        let high = hex_digit_value(data[2 * at]);
        let low = hex_digit_value(data[2 * at + 1]);
        assert(is_hex_digit(data[2 * at]) && is_hex_digit(data[2 * at + 1]));
        assert(bytes[at] == 16 * high + low);
        assert(bytes[at] as int / 16 == high && bytes[at] as int % 16 == low);
        assert(is_hex_char(text[k]));
        assert(data[k] == text[k] as u8);
        char_u32_cast(text[k], text[k] as u32);
    }
    assert(again =~= lower);
}

/// A text has at least as many bytes in UTF-8 as it has characters.
pub proof fn lemma_utf8_no_shorter(text: Seq<char>)
    ensures
        encode_utf8(text).len() >= text.len(),
    decreases text.len(),
{
    if text.len() > 0 {
        lemma_utf8_no_shorter(text.drop_first());
        assert(encode_scalar(text[0] as u32).len() >= 1);
    }
}

/// What `base64::decode` returns for a text: the bytes it stands for in the
/// standard alphabet, or the reason why it stands for none.
pub uninterp spec fn base64_decoding(data: Seq<u8>) -> Result<Seq<u8>, Base64Error>;

/// What a `hex::FromHexError` says when it is displayed.
pub uninterp spec fn hex_error_text(error: HexError) -> Seq<char>;

/// What a `base64::DecodeError` says when it is displayed.
pub uninterp spec fn base64_error_text(error: Base64Error) -> Seq<char>;

/// A result with its byte vector taken as a sequence.
pub open spec fn bytes_outcome<E>(r: Result<Vec<u8>, E>) -> Result<Seq<u8>, E> {
    match r {
        Ok(bytes) => Ok(bytes@),
        Err(error) => Err(error),
    }
}

/// `hex::decode`: turns each pair of hexadecimal digits into one byte. It
/// refuses a text of odd length before it looks at any byte, and otherwise
/// stops at the first byte that is not a digit.
#[verifier::external_body]
pub(crate) fn hex_decode(data: &[u8]) -> (r: Result<Vec<u8>, HexError>)
    ensures
        bytes_outcome(r) == hex_decoding(data@),
{
    match hex::decode(data) {
        Ok(bytes) => Ok(bytes),
        Err(hex::FromHexError::InvalidHexCharacter { c, index }) => Err(
            HexError::InvalidCharacter { c, index },
        ),
        Err(hex::FromHexError::OddLength) => Err(HexError::OddLength),
        Err(hex::FromHexError::InvalidStringLength) => Err(HexError::InvalidLength),
    }
}

/// `hex::encode`: writes each byte as two lower-case hexadecimal digits.
#[verifier::external_body]
pub(crate) fn hex_encode(bytes: &[u8]) -> (r: String)
    ensures
        r@ == hex_encoding(bytes@),
{
    hex::encode(bytes)
}

/// `base64::decode`: decodes Base64 in the standard alphabet. The contract
/// only names the result, which depends on the text alone; nothing is claimed
/// of which texts decode or to what.
#[verifier::external_body]
pub(crate) fn base64_decode(data: &[u8]) -> (r: Result<Vec<u8>, Base64Error>)
    ensures
        bytes_outcome(r) == base64_decoding(data@),
{
    match base64::decode(data) {
        Ok(bytes) => Ok(bytes),
        Err(base64::DecodeError::InvalidByte(offset, byte)) => Err(
            Base64Error::InvalidByte { offset, byte },
        ),
        Err(base64::DecodeError::InvalidLength) => Err(Base64Error::InvalidLength),
        Err(base64::DecodeError::InvalidLastSymbol(offset, byte)) => Err(
            Base64Error::InvalidLastSymbol { offset, byte },
        ),
    }
}

/// The `Display` text of `hex::FromHexError`, for the error of that crate
/// with the same variant and fields. The contract only names the text.
#[verifier::external_body]
pub(crate) fn describe_hex_error(error: HexError) -> (r: String)
    ensures
        r@ == hex_error_text(error),
{
    let cause = match error {
        HexError::InvalidCharacter { c, index } => hex::FromHexError::InvalidHexCharacter {
            c,
            index,
        },
        HexError::OddLength => hex::FromHexError::OddLength,
        HexError::InvalidLength => hex::FromHexError::InvalidStringLength,
    };
    cause.to_string()
}

/// The `Display` text of `base64::DecodeError`, for the error of that crate
/// with the same variant and fields. The contract only names the text.
#[verifier::external_body]
pub(crate) fn describe_base64_error(error: Base64Error) -> (r: String)
    ensures
        r@ == base64_error_text(error),
{
    let cause = match error {
        Base64Error::InvalidByte { offset, byte } => base64::DecodeError::InvalidByte(offset, byte),
        Base64Error::InvalidLength => base64::DecodeError::InvalidLength,
        Base64Error::InvalidLastSymbol { offset, byte } => base64::DecodeError::InvalidLastSymbol(
            offset,
            byte,
        ),
    };
    cause.to_string()
}

} // verus!
