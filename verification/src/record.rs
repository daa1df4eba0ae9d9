//! One character-set definition: canonical name, preferred MIME name, aliases
//! and the upper-case match keys by which input is recognised.

use crate::character_set::CharacterSet;
use crate::error::InvalidCharacterSetNameError;
use crate::text::{
    ascii_upper, holds_string, holds_text, option_text, same_text, string_texts, texts,
};
use vstd::prelude::*;
use vstd::std_specs::cmp::PartialEqSpecImpl;

verus! {

/// What a record holds, as mathematical values.
pub ghost struct RecordView {
    /// The canonical name, in display case.
    pub name: Seq<char>,
    /// The name preferred in MIME contexts, where one is registered.
    pub preferred_mime_name: Option<Seq<char>>,
    /// The alternate spellings, in display case and in their listed order.
    pub aliases: Seq<Seq<char>>,
    /// The upper-case spellings that input is compared against.
    pub match_keys: Seq<Seq<char>>,
}

/// The spellings under which a record is known in display case: the
/// canonical name first, then the aliases in order.
pub open spec fn spellings(name: Seq<char>, aliases: Seq<Seq<char>>) -> Seq<Seq<char>> {
    seq![name] + aliases
}

/// The ASCII upper-case form of each of `items`, in order.
pub open spec fn upper_forms(items: Seq<Seq<char>>) -> Seq<Seq<char>> {
    Seq::new(items.len(), |i: int| ascii_upper(items[i]))
}

/// Whether `match_keys` lists, each once, exactly the upper-case forms of the
/// canonical name and of every alias.
pub open spec fn keys_fit(
    name: Seq<char>,
    aliases: Seq<Seq<char>>,
    match_keys: Seq<Seq<char>>,
) -> bool {
    &&& match_keys.no_duplicates()
    &&& match_keys.to_set() == upper_forms(spellings(name, aliases)).to_set()
}

impl RecordView {
    /// The canonical name followed by the aliases.
    pub open spec fn spellings(self) -> Seq<Seq<char>> {
        spellings(self.name, self.aliases)
    }

    /// The invariant of a record: its match keys are the set of upper-case
    /// forms of its spellings.
    pub open spec fn wf(self) -> bool {
        keys_fit(self.name, self.aliases, self.match_keys)
    }

    /// Whether `input`, folded to upper case, is one of the match keys.
    pub open spec fn matches(self, input: Seq<char>) -> bool {
        self.match_keys.contains(ascii_upper(input))
    }
}

/// One character-set definition. Every value satisfies `RecordView::wf`.
#[derive(Clone, Copy, Debug, Eq)]
pub struct Record {
    name: &'static str,
    preferred_mime_name: Option<&'static str>,
    aliases: &'static [&'static str],
    match_keys: &'static [&'static str],
}

impl View for Record {
    type V = RecordView;

    closed spec fn view(&self) -> RecordView {
        RecordView {
            name: self.name@,
            preferred_mime_name: option_text(self.preferred_mime_name),
            aliases: texts(self.aliases@),
            match_keys: texts(self.match_keys@),
        }
    }
}

/// The upper-case forms of `name` and of each of `aliases`, in order.
fn fold_spellings(name: &str, aliases: &[&str]) -> (r: Vec<String>)
    ensures
        string_texts(r@) == upper_forms(spellings(name@, texts(aliases@))),
{
    let ghost all = spellings(name@, texts(aliases@));
    let mut out: Vec<String> = Vec::new();
    out.push(name.to_ascii_uppercase());
    let mut i: usize = 0;
    while i < aliases.len()
        invariant
            i <= aliases.len(),
            all == spellings(name@, texts(aliases@)),
            out@.len() == i + 1,
            forall|j: int| 0 <= j <= i ==> (#[trigger] out@[j])@ == ascii_upper(all[j]),
        decreases aliases.len() - i,
    {
        out.push(aliases[i].to_ascii_uppercase());
        i += 1;
    }
    assert(string_texts(out@) =~= upper_forms(all));
    out
}

/// Whether no text occurs twice in `items`.
pub fn all_distinct(items: &[&str]) -> (r: bool)
    ensures
        r == texts(items@).no_duplicates(),
{
    let mut i: usize = 0;
    while i < items.len()
        invariant
            i <= items.len(),
            forall|a: int, b: int| 0 <= a < b < i ==> texts(items@)[a] != texts(items@)[b],
        decreases items.len() - i,
    {
        let mut j: usize = 0;
        while j < i
            invariant
                j <= i < items.len(),
                forall|a: int| 0 <= a < j ==> texts(items@)[a] != texts(items@)[i as int],
            decreases i - j,
        {
            if same_text(items[j], items[i]) {
                assert(texts(items@)[j as int] == texts(items@)[i as int]);
                return false;
            }
            j += 1;
        }
        i += 1;
    }
    true
}

/// Whether every one of `items` is among `keys`.
fn all_among_keys(items: &Vec<String>, keys: &[&str]) -> (r: bool)
    ensures
        r == (forall|i: int|
            0 <= i < items@.len() ==> texts(keys@).contains(#[trigger] string_texts(items@)[i])),
{
    let mut i: usize = 0;
    while i < items.len()
        invariant
            i <= items.len(),
            forall|j: int|
                0 <= j < i ==> texts(keys@).contains(#[trigger] string_texts(items@)[j]),
        decreases items.len() - i,
    {
        if !holds_text(keys, items[i].as_str()) {
            assert(!texts(keys@).contains(string_texts(items@)[i as int]));
            return false;
        }
        i += 1;
    }
    true
}

/// Whether every one of `keys` is among `items`.
fn all_among_forms(keys: &[&str], items: &Vec<String>) -> (r: bool)
    ensures
        r == (forall|k: int|
            0 <= k < keys@.len() ==> string_texts(items@).contains(#[trigger] texts(keys@)[k])),
{
    let mut k: usize = 0;
    while k < keys.len()
        invariant
            k <= keys.len(),
            forall|j: int|
                0 <= j < k ==> string_texts(items@).contains(#[trigger] texts(keys@)[j]),
        decreases keys.len() - k,
    {
        if !holds_string(items, keys[k]) {
            assert(!string_texts(items@).contains(texts(keys@)[k as int]));
            return false;
        }
        k += 1;
    }
    true
}

/// Two lists hold the same set of texts exactly when each item of either is
/// among the items of the other.
pub proof fn lemma_same_set(a: Seq<Seq<char>>, b: Seq<Seq<char>>)
    ensures
        a.to_set() == b.to_set() <==> {
            &&& forall|i: int| 0 <= i < a.len() ==> b.contains(#[trigger] a[i])
            &&& forall|k: int| 0 <= k < b.len() ==> a.contains(#[trigger] b[k])
        },
{
    if a.to_set() == b.to_set() {
        assert forall|i: int| 0 <= i < a.len() implies b.contains(#[trigger] a[i]) by {
            assert(a.to_set().contains(a[i]));
            assert(b.to_set().contains(a[i]));
        }
        assert forall|k: int| 0 <= k < b.len() implies a.contains(#[trigger] b[k]) by {
            assert(b.to_set().contains(b[k]));
            assert(a.to_set().contains(b[k]));
        }
    }
    if (forall|i: int| 0 <= i < a.len() ==> b.contains(#[trigger] a[i])) && (forall|k: int|
        0 <= k < b.len() ==> a.contains(#[trigger] b[k])) {
        assert(a.to_set() =~= b.to_set());
    }
}

impl Record {
    /// Holds of every record that exists at run time.
    #[verifier::type_invariant]
    pub open spec fn valid(self) -> bool {
        self@.wf()
    }

    /// A record from one row of a table, if the row is consistent.
    ///
    /// The row is accepted exactly when `match_keys` lists, each once, the
    /// ASCII upper-case forms of `name` and of every alias, and nothing else.
    pub fn new(
        name: &'static str,
        preferred_mime_name: Option<&'static str>,
        aliases: &'static [&'static str],
        match_keys: &'static [&'static str],
    ) -> (r: Option<Record>)
        ensures
            r is Some <==> keys_fit(name@, texts(aliases@), texts(match_keys@)),
            r matches Some(record) ==> record@ == (RecordView {
                name: name@,
                preferred_mime_name: option_text(preferred_mime_name),
                aliases: texts(aliases@),
                match_keys: texts(match_keys@),
            }),
    {
        let forms = fold_spellings(name, aliases);
        proof {
            lemma_same_set(texts(match_keys@), string_texts(forms@));
        }
        if all_distinct(match_keys) && all_among_keys(&forms, match_keys) && all_among_forms(
            match_keys,
            &forms,
        ) {
            Some(Record { name, preferred_mime_name, aliases, match_keys })
        } else {
            None
        }
    }

    /// The upper-case spellings under which this record is recognised.
    pub fn match_keys(&self) -> (r: &'static [&'static str])
        ensures
            texts(r@) == self@.match_keys,
    {
        self.match_keys
    }

    /// Resolves `s` against this record alone, ignoring ASCII case.
    ///
    /// Succeeds with this record exactly when the upper-case form of `s` is
    /// one of its match keys; otherwise the error lists the record's match
    /// keys and keeps `s` as it was given.
    pub fn from_str(&self, s: &str) -> (r: Result<Record, InvalidCharacterSetNameError>)
        ensures
            match r {
                Ok(record) => self@.matches(s@) && record == *self,
                Err(e) => {
                    &&& !self@.matches(s@)
                    &&& e.required_texts() == self@.match_keys
                    &&& e.found_text() == s@
                },
            },
    {
        let key = s.to_ascii_uppercase();
        if holds_text(self.match_keys, key.as_str()) {
            Ok(*self)
        } else {
            Err(InvalidCharacterSetNameError::new(self.match_keys, s))
        }
    }

    /// The canonical name as owned text, with no decoration.
    pub fn to_string(&self) -> (r: String)
        ensures
            r@ == self@.name,
    {
        self.name.to_owned()
    }

    /// The canonical name.
    pub fn as_str(&self) -> (r: &'static str)
        ensures
            r@ == self@.name,
    {
        self.name
    }

    /// The canonical name as its UTF-8 bytes.
    pub fn as_bytes(&self) -> (r: &'static [u8])
        ensures
            r@ == vstd::utf8::encode_utf8(self@.name),
    {
        self.name.as_bytes()
    }
}

impl CharacterSet for Record {
    open spec fn name_text(&self) -> Seq<char> {
        self@.name
    }

    open spec fn preferred_mime_name_text(&self) -> Option<Seq<char>> {
        self@.preferred_mime_name
    }

    open spec fn alias_texts(&self) -> Seq<Seq<char>> {
        self@.aliases
    }

    fn preferred_mime_name(&self) -> (r: Option<&'static str>) {
        self.preferred_mime_name
    }

    fn name(&self) -> (r: &'static str) {
        self.name
    }

    fn aliases(&self) -> (r: &'static [&'static str]) {
        self.aliases
    }
}

impl<T: CharacterSet> PartialEq<T> for Record {
    /// Equal to any character-set value of the same canonical name: the
    /// result is `eq_spec` of the two values.
    fn eq(&self, other: &T) -> (r: bool) {
        same_text(self.name, other.name())
    }
}

impl<T: CharacterSet> PartialEqSpecImpl<T> for Record {
    open spec fn obeys_eq_spec() -> bool {
        true
    }

    open spec fn eq_spec(&self, other: &T) -> bool {
        self.name_text() == other.name_text()
    }
}

} // verus!
