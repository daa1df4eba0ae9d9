//! The one failure of name resolution: the input matched no known spelling.

use crate::text::texts;
use vstd::prelude::*;
use vstd::string::StringExecFns;

verus! {

/// The text that `{:?}` renders for a list of strings: the quoted and escaped
/// items, separated by commas, between square brackets.
pub uninterp spec fn debug_rendering(items: Seq<Seq<char>>) -> Seq<char>;

/// The sentence shown for a failed resolution, given the rendered list of
/// valid spellings and the input as the caller supplied it.
pub open spec fn message_text(required: Seq<char>, found: Seq<char>) -> Seq<char> {
    "\"required "@ + required + " but "@ + found + " found."@
}

/// Renders a list of strings as `format!("{:?}", ..)` does, that is by the
/// standard library's `Debug` formatting of a slice of string slices.
///
/// Assumed, not proved: the result depends on the texts of the items alone,
/// and `debug_rendering` is the name of that dependence.
#[verifier::external_body]
fn render_debug(items: &[&'static str]) -> (r: String)
    ensures
        r@ == debug_rendering(texts(items@)),
{
    format!("{:?}", items)
}

/// Builds the sentence of a failed resolution from the rendered list of valid
/// spellings and the input that was found.
pub fn compose_message(required: &str, found: &str) -> (r: String)
    ensures
        r@ == message_text(required@, found@),
{
    let mut out = String::from_str("\"required ");
    out.append(required);
    out.append(" but ");
    out.append(found);
    out.append(" found.");
    out
}

/// No character set is known by the name that was supplied.
///
/// Carries the upper-case spellings that the input was compared against and
/// the input itself, unchanged.
#[derive(Debug)]
pub struct InvalidCharacterSetNameError {
    required: Vec<&'static str>,
    found: String,
}

impl InvalidCharacterSetNameError {
    /// The valid spellings, as texts.
    pub closed spec fn required_texts(&self) -> Seq<Seq<char>> {
        texts(self.required@)
    }

    /// The input as supplied.
    pub closed spec fn found_text(&self) -> Seq<char> {
        self.found@
    }

    /// An error for `found`, which matched none of `required`.
    pub fn new(required: &'static [&'static str], found: &str) -> (r: Self)
        ensures
            r.required_texts() == texts(required@),
            r.found_text() == found@,
    {
        let mut list: Vec<&'static str> = Vec::new();
        let mut i: usize = 0;
        while i < required.len()
            invariant
                i <= required.len(),
                list@ == required@.take(i as int),
            decreases required.len() - i,
        {
            list.push(required[i]);
            assert(list@ =~= required@.take(i + 1));
            i += 1;
        }
        assert(list@ =~= required@);
        InvalidCharacterSetNameError { required: list, found: found.to_owned() }
    }

    /// An error for `found`, which matched none of the owned list `required`.
    pub fn with_spellings(required: Vec<&'static str>, found: &str) -> (r: Self)
        ensures
            r.required_texts() == texts(required@),
            r.found_text() == found@,
    {
        InvalidCharacterSetNameError { required, found: found.to_owned() }
    }

    /// The upper-case spellings that the input was compared against.
    pub fn required(&self) -> (r: &[&'static str])
        ensures
            texts(r@) == self.required_texts(),
    {
        self.required.as_slice()
    }

    /// The input exactly as the caller supplied it.
    pub fn found(&self) -> (r: &str)
        ensures
            r@ == self.found_text(),
    {
        self.found.as_str()
    }

    /// The error as a sentence that names the valid spellings and the input.
    pub fn to_string(&self) -> (r: String)
        ensures
            r@ == message_text(debug_rendering(self.required_texts()), self.found_text()),
    {
        let list = render_debug(self.required.as_slice());
        compose_message(list.as_str(), self.found.as_str())
    }
}

} // verus!
