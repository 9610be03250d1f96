//! The option flags of a regular expression, in normal form: sorted by code
//! point, then trimmed of white space at both ends.

use crate::text::{chars_of, string_of};
use vstd::prelude::*;
use vstd::relations::*;
use vstd::seq_lib::*;

verus! {

/// `a` does not come after `b` by code point.
pub open spec fn precedes(a: char, b: char) -> bool {
    a as u32 <= b as u32
}

/// The order of characters by code point.
pub open spec fn code_point_order() -> spec_fn(char, char) -> bool {
    |a: char, b: char| precedes(a, b)
}

/// No character comes before one with a smaller code point.
pub open spec fn in_order(chars: Seq<char>) -> bool {
    forall|i: int, j: int| 0 <= i < j < chars.len() ==> precedes(chars[i], chars[j])
}

/// The characters in ascending order of code point.
pub open spec fn sorted_chars(chars: Seq<char>) -> Seq<char> {
    chars.sort_by(code_point_order())
}

/// A character that Unicode classes as white space (`White_Space`).
pub open spec fn is_whitespace(c: char) -> bool {
    let code = c as u32;
    ||| 0x09 <= code <= 0x0D
    ||| code == 0x20
    ||| code == 0x85
    ||| code == 0xA0
    ||| code == 0x1680
    ||| 0x2000 <= code <= 0x200A
    ||| code == 0x2028
    ||| code == 0x2029
    ||| code == 0x202F
    ||| code == 0x205F
    ||| code == 0x3000
}

/// How many white-space characters stand at the start.
pub open spec fn leading_whitespace(chars: Seq<char>) -> int
    decreases chars.len(),
{
    if chars.len() > 0 && is_whitespace(chars[0]) {
        1 + leading_whitespace(chars.drop_first())
    } else {
        0
    }
}

/// How many white-space characters stand at the end.
pub open spec fn trailing_whitespace(chars: Seq<char>) -> int
    decreases chars.len(),
{
    if chars.len() > 0 && is_whitespace(chars.last()) {
        1 + trailing_whitespace(chars.drop_last())
    } else {
        0
    }
}

/// The characters without the white space at the start and at the end.
pub open spec fn trimmed(chars: Seq<char>) -> Seq<char> {
    let rest = chars.skip(leading_whitespace(chars));
    rest.take(rest.len() - trailing_whitespace(rest))
}

/// The normal form of a string of option flags. No character is dropped for
/// not being a known flag.
pub open spec fn normalized_options(options: Seq<char>) -> Seq<char> {
    trimmed(sorted_chars(options))
}

/// The order by code point is a total order.
pub proof fn lemma_code_point_order_total()
    ensures
        total_ordering(code_point_order()),
{
    let order = code_point_order();
    assert(reflexive(order));
    assert(antisymmetric(order)) by {
        assert forall|a: char, b: char| #[trigger] order(a, b) && #[trigger] order(b, a) implies a
            == b by {
            vstd::utf8::char_u32_cast(a, a as u32);
            vstd::utf8::char_u32_cast(b, b as u32);
        }
    }
    assert(transitive(order));
    assert(strongly_connected(order));
}

/// Sorting keeps every character, as often as it occurs, and puts them in
/// order.
pub proof fn lemma_sorted_chars(chars: Seq<char>)
    ensures
        in_order(sorted_chars(chars)),
        sorted_chars(chars).to_multiset() == chars.to_multiset(),
        sorted_chars(chars).len() == chars.len(),
{
    lemma_code_point_order_total();
    chars.lemma_sort_by_ensures(code_point_order());
    let sorted = sorted_chars(chars);
    assert(sorted_by(sorted, code_point_order()));
    assert forall|i: int, j: int| 0 <= i < j < sorted.len() implies precedes(
        sorted[i],
        sorted[j],
    ) by {
        assert(code_point_order()(sorted[i], sorted[j]));
    }
    to_multiset_len(chars);
    to_multiset_len(sorted);
}

/// A sequence in order with the same characters as `chars` is the sorted
/// `chars`.
pub proof fn lemma_sorted_chars_unique(ordered: Seq<char>, chars: Seq<char>)
    requires
        in_order(ordered),
        ordered.to_multiset() == chars.to_multiset(),
    ensures
        ordered == sorted_chars(chars),
{
    lemma_code_point_order_total();
    lemma_sorted_chars(chars);
    let sorted = sorted_chars(chars);
    assert(sorted_by(ordered, code_point_order()));
    assert(sorted_by(sorted, code_point_order())) by {
        assert forall|i: int, j: int| 0 <= i < j < sorted.len() implies #[trigger] code_point_order()(
            sorted[i],
            sorted[j],
        ) by {
            assert(precedes(sorted[i], sorted[j]));
        }
    }
    lemma_sorted_unique(ordered, sorted, code_point_order());
}

/// The count of leading white space is the offset of the first character
/// that is not white space.
pub proof fn lemma_leading_whitespace(chars: Seq<char>)
    ensures
        0 <= leading_whitespace(chars) <= chars.len(),
        forall|i: int| 0 <= i < leading_whitespace(chars) ==> is_whitespace(chars[i]),
        leading_whitespace(chars) < chars.len() ==> !is_whitespace(
            chars[leading_whitespace(chars)],
        ),
    decreases chars.len(),
{
    if chars.len() > 0 && is_whitespace(chars[0]) {
        let rest = chars.drop_first();
        lemma_leading_whitespace(rest);
        assert forall|i: int| 0 <= i < leading_whitespace(chars) implies is_whitespace(
            chars[i],
        ) by {
            if i > 0 {
                assert(chars[i] == rest[i - 1]);
            }
        }
        if leading_whitespace(chars) < chars.len() {
            assert(chars[leading_whitespace(chars)] == rest[leading_whitespace(rest)]);
        }
    }
}

/// An offset before which all is white space, and at which there is none, is
/// the count of leading white space.
pub proof fn lemma_leading_whitespace_is(chars: Seq<char>, count: int)
    requires
        0 <= count <= chars.len(),
        forall|i: int| 0 <= i < count ==> is_whitespace(chars[i]),
        count < chars.len() ==> !is_whitespace(chars[count]),
    ensures
        leading_whitespace(chars) == count,
{
    lemma_leading_whitespace(chars);
    let found = leading_whitespace(chars);
    if found < count {
        assert(is_whitespace(chars[found]));
    } else if count < found {
        assert(is_whitespace(chars[count]));
    }
}

/// The count of trailing white space leaves a character that is not white
/// space at the end, if it leaves any.
pub proof fn lemma_trailing_whitespace(chars: Seq<char>)
    ensures
        0 <= trailing_whitespace(chars) <= chars.len(),
        forall|i: int|
            chars.len() - trailing_whitespace(chars) <= i < chars.len() ==> is_whitespace(chars[i]),
        trailing_whitespace(chars) < chars.len() ==> !is_whitespace(
            chars[chars.len() - trailing_whitespace(chars) - 1],
        ),
    decreases chars.len(),
{
    if chars.len() > 0 && is_whitespace(chars.last()) {
        let rest = chars.drop_last();
        lemma_trailing_whitespace(rest);
        assert forall|i: int|
            chars.len() - trailing_whitespace(chars) <= i < chars.len() implies is_whitespace(
            chars[i],
        ) by {
            if i < chars.len() - 1 {
                assert(chars[i] == rest[i]);
            }
        }
        if trailing_whitespace(chars) < chars.len() {
            assert(chars[chars.len() - trailing_whitespace(chars) - 1] == rest[rest.len()
                - trailing_whitespace(rest) - 1]);
        }
    }
}

/// A count after which all is white space, and before which there is none,
/// is the count of trailing white space.
pub proof fn lemma_trailing_whitespace_is(chars: Seq<char>, count: int)
    requires
        0 <= count <= chars.len(),
        forall|i: int| chars.len() - count <= i < chars.len() ==> is_whitespace(chars[i]),
        count < chars.len() ==> !is_whitespace(chars[chars.len() - count - 1]),
    ensures
        trailing_whitespace(chars) == count,
{
    lemma_trailing_whitespace(chars);
    let found = trailing_whitespace(chars);
    if found < count {
        assert(is_whitespace(chars[chars.len() - found - 1]));
    } else if count < found {
        assert(is_whitespace(chars[chars.len() - count - 1]));
    }
}

/// The normal form is in order and neither starts nor ends with white space.
pub proof fn lemma_normalized_options_shape(options: Seq<char>)
    ensures
        in_order(normalized_options(options)),
        normalized_options(options).len() > 0 ==> !is_whitespace(normalized_options(options)[0])
            && !is_whitespace(normalized_options(options).last()),
        normalized_options(options).len() <= options.len(),
{
    let sorted = sorted_chars(options);
    lemma_sorted_chars(options);
    lemma_leading_whitespace(sorted);
    let rest = sorted.skip(leading_whitespace(sorted));
    lemma_trailing_whitespace(rest);
    let kept = normalized_options(options);
    assert forall|i: int, j: int| 0 <= i < j < kept.len() implies precedes(kept[i], kept[j]) by {
        assert(kept[i] == sorted[i + leading_whitespace(sorted)]);
        assert(kept[j] == sorted[j + leading_whitespace(sorted)]);
    }
    if kept.len() > 0 {
        assert(kept[0] == sorted[leading_whitespace(sorted)]);
        assert(kept.last() == rest[rest.len() - trailing_whitespace(rest) - 1]);
    }
}

/// The order in which the flags are written does not matter: two strings
/// with the same characters, each as often as in the other, have the same
/// normal form.
pub proof fn lemma_options_order_free(first: Seq<char>, second: Seq<char>)
    requires
        first.to_multiset() == second.to_multiset(),
    ensures
        normalized_options(first) == normalized_options(second),
{
    lemma_sorted_chars(first);
    lemma_sorted_chars_unique(sorted_chars(first), second);
}

/// Normalizing twice is the same as normalizing once.
pub proof fn lemma_options_idempotent(options: Seq<char>)
    ensures
        normalized_options(normalized_options(options)) == normalized_options(options),
{
    let kept = normalized_options(options);
    lemma_normalized_options_shape(options);
    lemma_sorted_chars_unique(kept, kept);
    lemma_leading_whitespace_is(kept, 0);
    lemma_trailing_whitespace_is(kept, 0);
    assert(kept.skip(0) =~= kept);
    assert(kept.take(kept.len() as int) =~= kept);
}

/// Whether Unicode classes a character as white space (`White_Space`).
pub fn whitespace(c: char) -> (r: bool)
    ensures
        r == is_whitespace(c),
{
    let code: u32 = c as u32;
    (0x09 <= code && code <= 0x0D) || code == 0x20 || code == 0x85 || code == 0xA0 || code
        == 0x1680 || (0x2000 <= code && code <= 0x200A) || code == 0x2028 || code == 0x2029
        || code == 0x202F || code == 0x205F || code == 0x3000
}

/// The characters in ascending order of code point.
pub fn sort_chars(chars: &Vec<char>) -> (r: Vec<char>)
    ensures
        r@ == sorted_chars(chars@),
{
    let mut sorted: Vec<char> = Vec::new();
    let mut at: usize = 0;
    assert(chars@.take(0) =~= Seq::<char>::empty());
    while at < chars.len()
        invariant
            at <= chars@.len(),
            in_order(sorted@),
            sorted@.to_multiset() == chars@.take(at as int).to_multiset(),
            sorted@.len() == at,
        decreases chars@.len() - at,
    {
        let c = chars[at];
        let mut place: usize = 0;
        while place < sorted.len() && sorted[place] as u32 <= c as u32
            invariant
                place <= sorted@.len(),
                forall|k: int| 0 <= k < place ==> precedes(sorted@[k], c),
            decreases sorted@.len() - place,
        {
            place = place + 1;
        }
        let ghost before = sorted@;
        sorted.insert(place, c);
        proof {
            to_multiset_insert(before, place as int, c);
            assert(chars@.take(at + 1) =~= chars@.take(at as int).push(c));
            to_multiset_build(chars@.take(at as int), c);
            assert forall|i: int, j: int| 0 <= i < j < sorted@.len() implies precedes(
                sorted@[i],
                sorted@[j],
            ) by {
                if j == place {
                    assert(sorted@[i] == before[i]);
                } else if i == place {
                    assert(sorted@[j] == before[j - 1]);
                    assert(precedes(before[place as int], before[j - 1]) || j - 1 == place);
                } else {
                    let from = if i < place { i } else { i - 1 };
                    let to = if j < place { j } else { j - 1 };
                    assert(sorted@[i] == before[from]);
                    assert(sorted@[j] == before[to]);
                }
            }
        }
        at = at + 1;
    }
    proof {
        assert(chars@.take(at as int) =~= chars@);
        lemma_sorted_chars_unique(sorted@, chars@);
    }
    sorted
}

/// The characters without the white space at the start and at the end.
pub fn trim_chars(chars: &Vec<char>) -> (r: Vec<char>)
    ensures
        r@ == trimmed(chars@),
{
    let mut start: usize = 0;
    while start < chars.len() && whitespace(chars[start])
        invariant
            start <= chars@.len(),
            forall|i: int| 0 <= i < start ==> is_whitespace(chars@[i]),
        decreases chars@.len() - start,
    {
        start = start + 1;
    }
    let mut end: usize = chars.len();
    while end > start && whitespace(chars[end - 1])
        invariant
            start <= end <= chars@.len(),
            forall|i: int| end <= i < chars@.len() ==> is_whitespace(chars@[i]),
        decreases end - start,
    {
        end = end - 1;
    }
    let ghost rest = chars@.skip(start as int);
    proof {
        lemma_leading_whitespace_is(chars@, start as int);
        assert forall|i: int| rest.len() - (chars@.len() - end) <= i < rest.len() implies is_whitespace(
            rest[i],
        ) by {
            assert(rest[i] == chars@[i + start]);
        }
        if chars@.len() - end < rest.len() {
            assert(rest[rest.len() - (chars@.len() - end) - 1] == chars@[end - 1]);
        }
        lemma_trailing_whitespace_is(rest, chars@.len() - end);
    }
    let mut kept: Vec<char> = Vec::new();
    let mut at: usize = start;
    while at < end
        invariant
            start <= at <= end <= chars@.len(),
            kept@ == chars@.subrange(start as int, at as int),
        decreases end - at,
    {
        kept.push(chars[at]);
        at = at + 1;
        assert(kept@ =~= chars@.subrange(start as int, at as int));
    }
    assert(kept@ =~= rest.take(rest.len() - (chars@.len() - end)));
    kept
}

/// Brings a string of option flags into normal form.
pub fn normalize_options(options: &str) -> (r: String)
    ensures
        r@ == normalized_options(options@),
{
    let chars = chars_of(options);
    let sorted = sort_chars(&chars);
    let kept = trim_chars(&sorted);
    string_of(&kept)
}

} // verus!
