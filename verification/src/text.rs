//! Strings as sequences of characters.

use vstd::prelude::*;
use vstd::string::*;
use vstd::utf8::*;

verus! {

/// `String::push` of the standard library: appends one character to the end
/// of the string and leaves the rest as it was.
pub assume_specification[ String::push ](text: &mut String, c: char)
    ensures
        final(text)@ == old(text)@.push(c),
;

/// Whether two strings hold the same characters.
pub fn same_text(a: &str, b: &str) -> (r: bool)
    ensures
        r == (a@ == b@),
{
    let left = a.as_bytes();
    let right = b.as_bytes();
    if left.len() != right.len() {
        return false;
    }
    let mut at: usize = 0;
    while at < left.len()
        invariant
            at <= left@.len() == right@.len(),
            left@ == encode_utf8(a@),
            right@ == encode_utf8(b@),
            forall|k: int| 0 <= k < at ==> left@[k] == right@[k],
        decreases left@.len() - at,
    {
        if left[at] != right[at] {
            return false;
        }
        at = at + 1;
    }
    proof {
        assert(left@ =~= right@);
        encode_utf8_decode_utf8(a@);
        encode_utf8_decode_utf8(b@);
    }
    true
}

/// The characters of a string, in order.
pub fn chars_of(text: &str) -> (r: Vec<char>)
    ensures
        r@ == text@,
{
    let mut chars: Vec<char> = Vec::new();
    for c in iter: text.chars()
        invariant
            chars@ == iter.seq().take(iter.index() as int),
            iter.seq() == text@,
    {
        chars.push(c);
    }
    assert(chars@ =~= text@);
    chars
}

/// The string made of the given characters, in order.
pub fn string_of(chars: &Vec<char>) -> (r: String)
    ensures
        r@ == chars@,
{
    let mut text = String::new();
    let mut at: usize = 0;
    while at < chars.len()
        invariant
            at <= chars@.len(),
            text@ == chars@.subrange(0, at as int),
        decreases chars@.len() - at,
    {
        text.push(chars[at]);
        at = at + 1;
        assert(text@ =~= chars@.subrange(0, at as int));
    }
    assert(text@ =~= chars@);
    text
}

} // verus!
