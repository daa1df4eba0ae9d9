//! Text primitives: ASCII case folding, equality of string slices, and
//! membership of a text in a list of spellings.
//!
//! Contracts in this crate speak of a string through its view, the sequence
//! of its characters.

use vstd::prelude::*;

verus! {

/// The ASCII upper-case form of one character: `a`..`z` become `A`..`Z`,
/// every other character, ASCII or not, is unchanged.
pub open spec fn ascii_upper_char(c: char) -> char {
    if 'a' <= c && c <= 'z' {
        ((c as u32) - 32) as char
    } else {
        c
    }
}

/// The ASCII upper-case form of a text, character by character.
pub open spec fn ascii_upper(s: Seq<char>) -> Seq<char> {
    Seq::new(s.len(), |i: int| ascii_upper_char(s[i]))
}

/// Two texts that differ at most in the case of their ASCII letters.
pub open spec fn same_ignoring_ascii_case(a: Seq<char>, b: Seq<char>) -> bool {
    &&& a.len() == b.len()
    &&& forall|i: int| 0 <= i < a.len() ==> ascii_upper_char(a[i]) == ascii_upper_char(b[i])
}

/// The texts of a list of string slices, in order.
pub open spec fn texts<'a>(items: Seq<&'a str>) -> Seq<Seq<char>> {
    Seq::new(items.len(), |i: int| items[i]@)
}

/// The texts of a list of owned strings, in order.
pub open spec fn string_texts(items: Seq<String>) -> Seq<Seq<char>> {
    Seq::new(items.len(), |i: int| items[i]@)
}

/// The text of an optional string slice.
pub open spec fn option_text<'a>(item: Option<&'a str>) -> Option<Seq<char>> {
    match item {
        Some(s) => Some(s@),
        None => None,
    }
}

/// `str::to_ascii_uppercase` returns a copy of the text in which each ASCII
/// lower-case letter is replaced by its upper-case form and every other
/// character is kept. This is assumed of the standard library, not proved.
pub assume_specification[ str::to_ascii_uppercase ](s: &str) -> (r: String)
    ensures
        r@ == ascii_upper(s@),
;

/// Folding twice is folding once.
pub proof fn lemma_ascii_upper_idempotent(s: Seq<char>)
    ensures
        ascii_upper(ascii_upper(s)) == ascii_upper(s),
{
    assert(ascii_upper(ascii_upper(s)) =~= ascii_upper(s));
}

/// Texts that differ only in ASCII case are exactly those with one folded form.
pub proof fn lemma_same_ignoring_ascii_case(a: Seq<char>, b: Seq<char>)
    ensures
        same_ignoring_ascii_case(a, b) <==> ascii_upper(a) == ascii_upper(b),
{
    if same_ignoring_ascii_case(a, b) {
        assert(ascii_upper(a) =~= ascii_upper(b));
    }
    if ascii_upper(a) == ascii_upper(b) {
        assert(ascii_upper(a).len() == a.len());
        assert(ascii_upper(b).len() == b.len());
        assert forall|i: int| 0 <= i < a.len() implies ascii_upper_char(a[i]) == ascii_upper_char(
            b[i],
        ) by {
            assert(ascii_upper(a)[i] == ascii_upper_char(a[i]));
            assert(ascii_upper(b)[i] == ascii_upper_char(b[i]));
        }
    }
}

/// Whether two string slices hold the same text.
///
/// Compares the UTF-8 bytes; equal bytes decode to equal characters.
pub fn same_text(a: &str, b: &str) -> (r: bool)
    ensures
        r == (a@ == b@),
{
    let x = a.as_bytes();
    let y = b.as_bytes();
    if x.len() != y.len() {
        return false;
    }
    let mut i: usize = 0;
    while i < x.len()
        invariant
            i <= x.len(),
            x.len() == y.len(),
            x@ == vstd::utf8::encode_utf8(a@),
            y@ == vstd::utf8::encode_utf8(b@),
            forall|j: int| 0 <= j < i ==> x@[j] == y@[j],
        decreases x.len() - i,
    {
        if x[i] != y[i] {
            assert(x@[i as int] != y@[i as int]);
            return false;
        }
        i += 1;
    }
    proof {
        assert(x@ =~= y@);
        vstd::utf8::encode_utf8_decode_utf8(a@);
        vstd::utf8::encode_utf8_decode_utf8(b@);
    }
    true
}

/// Whether `text` is one of `items`.
pub fn holds_text(items: &[&str], text: &str) -> (r: bool)
    ensures
        r == texts(items@).contains(text@),
{
    let mut i: usize = 0;
    while i < items.len()
        invariant
            i <= items.len(),
            forall|j: int| 0 <= j < i ==> texts(items@)[j] != text@,
        decreases items.len() - i,
    {
        if same_text(items[i], text) {
            assert(texts(items@)[i as int] == text@);
            return true;
        }
        i += 1;
    }
    false
}

/// Whether `text` is one of the owned strings `items`.
pub fn holds_string(items: &Vec<String>, text: &str) -> (r: bool)
    ensures
        r == string_texts(items@).contains(text@),
{
    let mut i: usize = 0;
    while i < items.len()
        invariant
            i <= items.len(),
            forall|j: int| 0 <= j < i ==> string_texts(items@)[j] != text@,
        decreases items.len() - i,
    {
        if same_text(items[i].as_str(), text) {
            assert(string_texts(items@)[i as int] == text@);
            return true;
        }
        i += 1;
    }
    false
}

} // verus!
