//! Decimal integers in text: an optional sign, then one or more digits.

use vstd::prelude::*;

verus! {

/// Why a text gave no 64-bit integer.
#[derive(Clone, Copy, Debug, PartialEq, Eq)]
pub enum DecimalError {
    /// The text is not an optional sign followed by digits.
    Malformed,
    /// The text is a decimal integer outside the signed 64-bit range.
    OutOfRange,
}

/// One of `0-9`.
pub open spec fn is_digit(byte: u8) -> bool {
    0x30 <= byte <= 0x39
}

/// Every byte is a digit.
pub open spec fn all_digits(digits: Seq<u8>) -> bool {
    forall|i: int| 0 <= i < digits.len() ==> is_digit(#[trigger] digits[i])
}

/// The number that a run of digits stands for in base ten.
pub open spec fn digits_value(digits: Seq<u8>) -> int
    decreases digits.len(),
{
    if digits.len() == 0 {
        0
    } else {
        digits_value(digits.drop_last()) * 10 + (digits.last() - 0x30)
    }
}

/// Whether the text starts with `-` or `+`.
pub open spec fn has_sign(text: Seq<u8>) -> bool {
    text.len() > 0 && (text[0] == 0x2D || text[0] == 0x2B)
}

/// The digits of a text, behind its sign if it has one.
pub open spec fn digits_of(text: Seq<u8>) -> Seq<u8> {
    if has_sign(text) {
        text.skip(1)
    } else {
        text
    }
}

/// The integer that a text stands for: an optional `-` or `+`, then at least
/// one digit and nothing else.
pub open spec fn decimal_value(text: Seq<u8>) -> Option<int> {
    let digits = digits_of(text);
    if digits.len() == 0 || !all_digits(digits) {
        None
    } else if text[0] == 0x2D {
        Some(-digits_value(digits))
    } else {
        Some(digits_value(digits))
    }
}

/// What [`parse_i64`] returns for a text.
pub open spec fn parsed_i64(text: Seq<u8>) -> Result<i64, DecimalError> {
    match decimal_value(text) {
        None => Err(DecimalError::Malformed),
        Some(value) => if i64::MIN <= value <= i64::MAX {
            Ok(value as i64)
        } else {
            Err(DecimalError::OutOfRange)
        },
    }
}

/// A run of digits stands for at least as much as any of its prefixes.
pub proof fn lemma_digits_value_grows(digits: Seq<u8>, count: int)
    requires
        all_digits(digits),
        0 <= count <= digits.len(),
    ensures
        0 <= digits_value(digits.take(count)) <= digits_value(digits),
    decreases digits.len() - count,
{
    if count == digits.len() {
        assert(digits.take(count) =~= digits);
        lemma_digits_value_nonnegative(digits);
    } else {
        lemma_digits_value_grows(digits, count + 1);
        let longer = digits.take(count + 1);
        assert(longer.drop_last() =~= digits.take(count));
        assert(is_digit(digits[count]));
        assert(longer.last() == digits[count]);
        lemma_digits_value_nonnegative(digits.take(count));
    }
}

/// A run of digits stands for no negative number.
pub proof fn lemma_digits_value_nonnegative(digits: Seq<u8>)
    requires
        all_digits(digits),
    ensures
        0 <= digits_value(digits),
    decreases digits.len(),
{
    if digits.len() > 0 {
        assert(all_digits(digits.drop_last())) by {
            assert forall|i: int| 0 <= i < digits.drop_last().len() implies is_digit(
                #[trigger] digits.drop_last()[i],
            ) by {
                assert(digits.drop_last()[i] == digits[i]);
            }
        }
        lemma_digits_value_nonnegative(digits.drop_last());
        assert(is_digit(digits[digits.len() - 1]));
    }
}

/// Reads a decimal integer of at most 64 bits.
#[verifier::loop_isolation(false)]
pub fn parse_i64(text: &[u8]) -> (r: Result<i64, DecimalError>)
    ensures
        r == parsed_i64(text@),
{
    let length = text.len();
    let negative = length > 0 && text[0] == 0x2D;
    let start: usize = if length > 0 && (text[0] == 0x2D || text[0] == 0x2B) {
        1
    } else {
        0
    };
    let ghost digits = digits_of(text@);
    assert(digits =~= text@.skip(start as int));
    if start == length {
        return Err(DecimalError::Malformed);
    }
    let mut at: usize = start;
    while at < length
        invariant
            start <= at <= length == text@.len(),
            digits == text@.skip(start as int),
            forall|i: int| 0 <= i < at - start ==> is_digit(#[trigger] digits[i]),
        decreases length - at,
    {
        assert(digits[at - start] == text@[at as int]);
        if !(0x30 <= text[at] && text[at] <= 0x39) {
            assert(!is_digit(digits[at - start]));
            return Err(DecimalError::Malformed);
        }
        at = at + 1;
    }
    assert(all_digits(digits));
    let limit: u64 = if negative {
        0x8000_0000_0000_0000
    } else {
        0x7fff_ffff_ffff_ffff
    };
    let mut total: u64 = 0;
    at = start;
    assert(digits.take(0) =~= Seq::<u8>::empty());
    while at < length
        invariant
            start <= at <= length == text@.len(),
            digits == text@.skip(start as int),
            all_digits(digits),
            total == digits_value(digits.take(at - start)),
            total <= limit <= 0x8000_0000_0000_0000,
        decreases length - at,
    {
        proof {
            let longer = digits.take(at - start + 1);
            assert(longer.drop_last() =~= digits.take(at - start));
            assert(longer.last() == text@[at as int]);
            assert(digits[at - start] == text@[at as int]);
            assert(is_digit(digits[at - start]));
            lemma_digits_value_grows(digits, at - start + 1);
        }
        let digit: u64 = (text[at] - 0x30) as u64;
        if total > (limit - digit) / 10 {
            return Err(DecimalError::OutOfRange);
        }
        total = total * 10 + digit;
        at = at + 1;
    }
    assert(digits.take(at - start) =~= digits);
    if negative {
        if total == 0x8000_0000_0000_0000 {
            Ok(i64::MIN)
        } else {
            Ok(-(total as i64))
        }
    } else {
        Ok(total as i64)
    }
}

} // verus!
