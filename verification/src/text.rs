//! Operations on text that the rest of the library is built on.

use vstd::prelude::*;
use vstd::string::StringSliceAdditionalSpecFns;
use vstd::utf8::{encode_utf8, encode_utf8_decode_utf8};

verus! {

/// `String::push` appends the character to the end of the string.
pub assume_specification[ std::string::String::push ](
    string: &mut std::string::String,
    character: char,
)
    ensures
        final(string)@ == old(string)@.push(character),
;

/// Whether two strings hold the same characters.
pub fn str_eq(a: &str, b: &str) -> (equal: bool)
    ensures
        equal == (a@ == b@),
{
    let left = a.as_bytes();
    let right = b.as_bytes();
    proof {
        encode_utf8_decode_utf8(a@);
        encode_utf8_decode_utf8(b@);
    }
    if left.len() != right.len() {
        return false;
    }
    let mut i: usize = 0;
    while i < left.len()
        invariant
            i <= left.len(),
            left.len() == right.len(),
            forall|j: int| 0 <= j < i ==> left@[j] == right@[j],
            left@ == encode_utf8(a@),
            right@ == encode_utf8(b@),
        decreases left.len() - i,
    {
        if left[i] != right[i] {
            return false;
        }
        i = i + 1;
    }
    proof {
        assert(left@ =~= right@);
    }
    true
}

/// `text` with every occurrence of `from` replaced by `to`. Occurrences are
/// found from left to right and do not overlap; `from` is not empty.
pub open spec fn replaced(text: Seq<char>, from: Seq<char>, to: Seq<char>) -> Seq<char>
    decreases text.len(),
{
    if from.len() == 0 || text.len() < from.len() {
        text
    } else if text.take(from.len() as int) == from {
        to + replaced(text.skip(from.len() as int), from, to)
    } else {
        seq![text[0]] + replaced(text.skip(1), from, to)
    }
}

/// `str::replace`: a new string in which every match of the pattern is
/// replaced. The matches are those that a search from left to right finds
/// when it resumes behind each match, so they do not overlap.
#[verifier::external_body]
pub(crate) fn replace(text: &str, from: &str, to: &str) -> (r: String)
    requires
        from@.len() > 0,
    ensures
        r@ == replaced(text@, from@, to@),
{
    text.replace(from, to)
}

/// The character of a decimal digit.
pub open spec fn digit(value: nat) -> char {
    if value == 0 {
        '0'
    } else if value == 1 {
        '1'
    } else if value == 2 {
        '2'
    } else if value == 3 {
        '3'
    } else if value == 4 {
        '4'
    } else if value == 5 {
        '5'
    } else if value == 6 {
        '6'
    } else if value == 7 {
        '7'
    } else if value == 8 {
        '8'
    } else {
        '9'
    }
}

/// A number in decimal notation, without leading zeros.
pub open spec fn decimal(value: nat) -> Seq<char>
    decreases value,
{
    if value < 10 {
        seq![digit(value)]
    } else {
        decimal(value / 10).push(digit(value % 10))
    }
}

fn digit_of(value: usize) -> (c: char)
    requires
        value < 10,
    ensures
        c == digit(value as nat),
{
    if value == 0 {
        '0'
    } else if value == 1 {
        '1'
    } else if value == 2 {
        '2'
    } else if value == 3 {
        '3'
    } else if value == 4 {
        '4'
    } else if value == 5 {
        '5'
    } else if value == 6 {
        '6'
    } else if value == 7 {
        '7'
    } else if value == 8 {
        '8'
    } else {
        '9'
    }
}

/// Appends a number in decimal notation to a string.
pub fn push_decimal(text: &mut String, value: usize)
    ensures
        final(text)@ == old(text)@ + decimal(value as nat),
    decreases value,
{
    if value >= 10 {
        push_decimal(text, value / 10);
    }
    text.push(digit_of(value % 10));
    proof {
        if value >= 10 {
            assert(final(text)@ =~= old(text)@ + decimal(value as nat));
        } else {
            assert(final(text)@ =~= old(text)@ + decimal(value as nat));
        }
    }
}

/// The marker that the substitution of the given index replaces: the index
/// in decimal notation between braces.
pub open spec fn substitution_marker(index: nat) -> Seq<char> {
    seq!['{'] + decimal(index) + seq!['}']
}

/// A string that holds the marker of the substitution of the given index.
pub fn marker_of(index: usize) -> (marker: String)
    ensures
        marker@ == substitution_marker(index as nat),
{
    let mut marker = String::new();
    marker.push('{');
    push_decimal(&mut marker, index);
    marker.push('}');
    proof {
        assert(marker@ =~= substitution_marker(index as nat));
    }
    marker
}

/// The strings written one behind the other.
pub open spec fn joined(parts: Seq<Seq<char>>) -> Seq<char>
    decreases parts.len(),
{
    if parts.len() == 0 {
        Seq::empty()
    } else {
        joined(parts.drop_last()) + parts.last()
    }
}

/// Joining the first `count` parts and the rest joins all of them.
pub proof fn lemma_joined_split(parts: Seq<Seq<char>>, count: int)
    requires
        0 <= count <= parts.len(),
    ensures
        joined(parts.take(count)) + joined(parts.skip(count)) == joined(parts),
    decreases parts.len() - count,
{
    if count == parts.len() {
        assert(parts.take(count) =~= parts);
        assert(parts.skip(count) =~= Seq::empty());
        assert(joined(parts.take(count)) + joined(parts.skip(count)) =~= joined(parts));
    } else {
        lemma_joined_split(parts, count + 1);
        lemma_joined_first(parts.skip(count));
        assert(parts.skip(count).skip(1) =~= parts.skip(count + 1));
        assert(parts.take(count + 1).drop_last() =~= parts.take(count));
        assert(joined(parts.take(count)) + joined(parts.skip(count)) =~= joined(
            parts.take(count + 1),
        ) + joined(parts.skip(count + 1)));
    }
}

/// A joined text starts with its first part.
pub proof fn lemma_joined_first(parts: Seq<Seq<char>>)
    requires
        parts.len() > 0,
    ensures
        joined(parts) == parts[0] + joined(parts.skip(1)),
    decreases parts.len(),
{
    if parts.len() == 1 {
        assert(parts.drop_last() =~= Seq::empty());
        assert(parts.skip(1) =~= Seq::empty());
        assert(joined(parts) =~= parts[0] + joined(parts.skip(1)));
    } else {
        lemma_joined_first(parts.drop_last());
        assert(parts.drop_last().skip(1) =~= parts.skip(1).drop_last());
        assert(joined(parts) =~= parts[0] + joined(parts.skip(1)));
    }
}

/// The index of the first of `keys` that equals `key`, if any does.
pub open spec fn position_of(keys: Seq<Seq<char>>, key: Seq<char>) -> Option<int>
    decreases keys.len(),
{
    if keys.len() == 0 {
        None
    } else {
        match position_of(keys.drop_last(), key) {
            Some(i) => Some(i),
            None => if keys.last() == key {
                Some(keys.len() - 1)
            } else {
                None
            },
        }
    }
}

/// What [`position_of`] finds is the first occurrence of the key; where it
/// finds nothing, the key does not occur.
pub proof fn lemma_position_of(keys: Seq<Seq<char>>, key: Seq<char>)
    ensures
        match position_of(keys, key) {
            Some(i) => 0 <= i < keys.len() && keys[i] == key && forall|j: int|
                0 <= j < i ==> keys[j] != key,
            None => forall|j: int| 0 <= j < keys.len() ==> keys[j] != key,
        },
    decreases keys.len(),
{
    if keys.len() > 0 {
        let front = keys.drop_last();
        lemma_position_of(front, key);
        assert(forall|j: int| 0 <= j < front.len() ==> front[j] == keys[j]);
        match position_of(front, key) {
            Some(i) => {
                assert(keys[i] == front[i]);
                assert forall|j: int| 0 <= j < i implies keys[j] != key by {
                    assert(front[j] != key);
                }
            },
            None => {
                assert forall|j: int| 0 <= j < keys.len() - 1 implies keys[j] != key by {
                    assert(front[j] != key);
                }
            },
        }
    }
}

/// The first occurrence of a key is what [`position_of`] finds.
pub proof fn lemma_position_is_first(keys: Seq<Seq<char>>, key: Seq<char>, i: int)
    requires
        0 <= i < keys.len(),
        keys[i] == key,
        forall|j: int| 0 <= j < i ==> keys[j] != key,
    ensures
        position_of(keys, key) == Some(i),
{
    lemma_position_of(keys, key);
}

/// Where a key does not occur, [`position_of`] finds nothing.
pub proof fn lemma_position_absent(keys: Seq<Seq<char>>, key: Seq<char>)
    requires
        forall|j: int| 0 <= j < keys.len() ==> keys[j] != key,
    ensures
        position_of(keys, key) is None,
{
    lemma_position_of(keys, key);
}

} // verus!
