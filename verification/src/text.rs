//! Small operations on strings, stated over their characters.

use vstd::prelude::*;
use vstd::string::*;

verus! {

/// `text` without `prefix` in front; `text` itself where it does not start with `prefix`.
pub open spec fn without_prefix(text: Seq<char>, prefix: Seq<char>) -> Seq<char> {
    if prefix.is_prefix_of(text) {
        text.skip(prefix.len() as int)
    } else {
        text
    }
}

/// `text` cut in front of the first `separator`, which stays with the second part. There is no
/// second part where `separator` does not occur.
pub open spec fn cut_before(text: Seq<char>, separator: char) -> (Seq<char>, Option<Seq<char>>) {
    match text.index_of_first(separator) {
        Some(index) => (text.take(index), Some(text.skip(index))),
        None => (text, None),
    }
}

/// The text of an optional string, empty where there is none.
pub open spec fn text_or_empty(text: Option<Seq<char>>) -> Seq<char> {
    match text {
        Some(chars) => chars,
        None => Seq::empty(),
    }
}

/// The characters of an optional string.
pub open spec fn optional_text(text: Option<String>) -> Option<Seq<char>> {
    match text {
        Some(string) => Some(string@),
        None => None,
    }
}

/// Removes `prefix` from the front of `text`, once, if it is there.
pub fn strip_prefix<'a>(text: &'a str, prefix: &str) -> (rest: &'a str)
    ensures
        rest@ == without_prefix(text@, prefix@),
{
    let text_len = text.unicode_len();
    let prefix_len = prefix.unicode_len();
    if text_len < prefix_len {
        return text;
    }
    let front = text.substring_char(0, prefix_len).to_owned();
    if front == prefix.to_owned() {
        text.substring_char(prefix_len, text_len)
    } else {
        text
    }
}

/// Finds the first `wanted` in `text`, counted in characters.
pub fn find_char(text: &str, wanted: char) -> (position: Option<usize>)
    ensures
        match position {
            Some(index) => text@.index_of_first(wanted) == Some(index as int),
            None => text@.index_of_first(wanted) is None,
        },
        position matches Some(index) ==> index < text@.len(),
{
    let len = text.unicode_len();
    let mut index: usize = 0;
    proof {
        text@.index_of_first_ensures(wanted);
    }
    for c in it: text.chars()
        invariant
            len == text@.len(),
            index == it.index(),
            it.seq() == text@,
            forall|i: int| 0 <= i < index ==> text@[i] != wanted,
            match text@.index_of_first(wanted) {
                Some(found) => text@.contains(wanted) && 0 <= found < text@.len() && text@[found]
                    == wanted && forall|j: int| 0 <= j < found ==> text@[j] != wanted,
                None => !text@.contains(wanted),
            },
    {
        if c == wanted {
            assert(text@[index as int] == wanted);
            return Some(index);
        }
        index = index + 1;
    }
    None
}

/// Cuts `text` in front of the first `separator`.
pub fn cut<'a>(text: &'a str, separator: char) -> (parts: (&'a str, Option<&'a str>))
    ensures
        parts.0@ == cut_before(text@, separator).0,
        match parts.1 {
            Some(rest) => cut_before(text@, separator).1 == Some(rest@),
            None => cut_before(text@, separator).1 is None,
        },
{
    match find_char(text, separator) {
        Some(index) => {
            let rest = text.substring_char(index, text.unicode_len());
            (text.substring_char(0, index), Some(rest))
        },
        None => (text, None),
    }
}

/// Joins two strings.
pub fn join(first: &str, second: &str) -> (joined: String)
    ensures
        joined@ == first@ + second@,
{
    let mut joined = first.to_owned();
    joined.append(second);
    joined
}

/// Texts with the same bytes are the same.
pub proof fn law_utf8_injective(first: Seq<char>, second: Seq<char>)
    requires
        vstd::utf8::encode_utf8(first) == vstd::utf8::encode_utf8(second),
    ensures
        first == second,
{
    vstd::utf8::encode_utf8_decode_utf8(first);
    vstd::utf8::encode_utf8_decode_utf8(second);
}

/// The parts of a cut text make up the text. The first part does not hold the separator, and the
/// second part, if there is one, starts with it.
pub proof fn law_cut_rejoins(text: Seq<char>, separator: char)
    ensures
        ({
            let (front, rest) = cut_before(text, separator);
            &&& front + text_or_empty(rest) == text
            &&& !front.contains(separator)
            &&& rest matches Some(rest) ==> rest.len() > 0 && rest[0] == separator
        }),
{
    text.index_of_first_ensures(separator);
    let (front, rest) = cut_before(text, separator);
    assert(front + text_or_empty(rest) =~= text);
}

/// A prefix is removed exactly if it is there, and then once; the rest is untouched.
pub proof fn law_prefix_is_removed(prefix: Seq<char>, rest: Seq<char>, text: Seq<char>)
    ensures
        without_prefix(prefix + rest, prefix) == rest,
        text.len() < prefix.len() || text.take(prefix.len() as int) != prefix ==> without_prefix(
            text,
            prefix,
        ) == text,
{
    let whole = prefix + rest;
    assert(prefix.is_prefix_of(whole)) by {
        assert(whole.subrange(0, prefix.len() as int) =~= prefix);
    }
    assert(whole.skip(prefix.len() as int) =~= rest);
    if prefix.is_prefix_of(text) {
        assert(text.take(prefix.len() as int) =~= prefix);
    }
}

/// A text without the separator is not cut; any other one is cut in front of the first separator.
pub proof fn law_cut_is_at_the_first(front: Seq<char>, rest: Seq<char>, separator: char)
    requires
        !front.contains(separator),
    ensures
        cut_before(front, separator) == (front, None::<Seq<char>>),
        cut_before(front + seq![separator] + rest, separator) == (
            front,
            Some(seq![separator] + rest),
        ),
{
    let whole = front + seq![separator] + rest;
    front.index_of_first_ensures(separator);
    whole.index_of_first_ensures(separator);
    assert(whole[front.len() as int] == separator);
    assert forall|i: int| 0 <= i < front.len() implies whole[i] != separator by {
        assert(whole[i] == front[i]);
    }
    assert(whole.take(front.len() as int) =~= front);
    assert(whole.skip(front.len() as int) =~= seq![separator] + rest);
}

/// A missing text is empty, and any other one is itself.
pub proof fn law_missing_text_is_empty(text: Seq<char>, string: String)
    ensures
        text_or_empty(None) == Seq::<char>::empty(),
        text_or_empty(Some(text)) == text,
        optional_text(None) is None,
        optional_text(Some(string)) == Some(string@),
{
}

} // verus!
