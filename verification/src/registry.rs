//! The closed set of records of one configuration, and resolution of a name
//! to the one record that claims it.

use crate::character_set::CharacterSet;
use crate::error::InvalidCharacterSetNameError;
use crate::record::{Record, RecordView};
use crate::text::{holds_text, same_text, texts};
use vstd::prelude::*;
use vstd::std_specs::cmp::PartialEqSpecImpl;

verus! {

/// The views of a list of records, in order.
pub open spec fn record_views(records: Seq<Record>) -> Seq<RecordView> {
    Seq::new(records.len(), |i: int| records[i]@)
}

/// No match key is claimed by two records.
pub open spec fn keys_disjoint(records: Seq<RecordView>) -> bool {
    forall|i: int, j: int|
        #![trigger records[i], records[j]]
        0 <= i < j < records.len() ==> records[i].match_keys.disjoint(records[j].match_keys)
}

/// The invariant of a registry: it is not empty, each record is well formed,
/// and no match key is claimed by two records.
pub open spec fn registry_wf(records: Seq<RecordView>) -> bool {
    &&& records.len() > 0
    &&& forall|i: int| 0 <= i < records.len() ==> (#[trigger] records[i]).wf()
    &&& keys_disjoint(records)
}

/// Resolution of `input` yields the record at position `i`: it is the first,
/// in declaration order, whose match keys hold the upper-case form of `input`.
pub open spec fn resolves_to(records: Seq<RecordView>, input: Seq<char>, i: int) -> bool {
    &&& 0 <= i < records.len()
    &&& records[i].matches(input)
    &&& forall|j: int| 0 <= j < i ==> !(#[trigger] records[j]).matches(input)
}

/// Resolution of `input` fails: no record's match keys hold its upper-case form.
pub open spec fn unresolved(records: Seq<RecordView>, input: Seq<char>) -> bool {
    forall|i: int| 0 <= i < records.len() ==> !(#[trigger] records[i]).matches(input)
}

/// Every match key of every record, in declaration order.
pub open spec fn all_match_keys(records: Seq<RecordView>) -> Seq<Seq<char>>
    decreases records.len(),
{
    if records.len() == 0 {
        Seq::empty()
    } else {
        all_match_keys(records.drop_last()) + records.last().match_keys
    }
}

/// Whether some text is in both lists.
pub fn share_key(a: &[&str], b: &[&str]) -> (r: bool)
    ensures
        r == !texts(a@).disjoint(texts(b@)),
{
    let mut i: usize = 0;
    while i < a.len()
        invariant
            i <= a.len(),
            forall|x: int, y: int|
                0 <= x < i && 0 <= y < b@.len() ==> texts(a@)[x] != texts(b@)[y],
        decreases a.len() - i,
    {
        if holds_text(b, a[i]) {
            let ghost y: int = choose|y: int|
                0 <= y < texts(b@).len() && texts(b@)[y] == a@[i as int]@;
            assert(texts(a@)[i as int] == texts(b@)[y]);
            return true;
        }
        assert forall|y: int| 0 <= y < b@.len() implies texts(a@)[i as int] != texts(b@)[y] by {
            if texts(a@)[i as int] == texts(b@)[y] {
                assert(texts(b@).contains(a@[i as int]@));
            }
        }
        i += 1;
    }
    false
}

/// Appends each of `keys` to `out`.
fn push_keys(out: &mut Vec<&'static str>, keys: &'static [&'static str])
    ensures
        final(out)@ == old(out)@ + keys@,
{
    let mut k: usize = 0;
    while k < keys.len()
        invariant
            k <= keys.len(),
            out@ == old(out)@ + keys@.take(k as int),
        decreases keys.len() - k,
    {
        out.push(keys[k]);
        assert(out@ =~= old(out)@ + keys@.take(k + 1));
        k += 1;
    }
    assert(keys@.take(keys@.len() as int) =~= keys@);
}

/// One member of the enumeration that a registry spans: a record together
/// with its position in the registry it was taken from.
#[derive(Clone, Copy, Debug, Eq)]
pub struct Variant {
    index: usize,
    record: Record,
}

impl View for Variant {
    type V = RecordView;

    closed spec fn view(&self) -> RecordView {
        self.record@
    }
}

impl Variant {
    /// The position of the record in its registry.
    pub closed spec fn tag(&self) -> int {
        self.index as int
    }

    /// The position of the record in its registry.
    pub fn index(&self) -> (r: usize)
        ensures
            r == self.tag(),
    {
        self.index
    }

    /// The record that this variant stands for.
    pub fn record(&self) -> (r: Record)
        ensures
            r@ == self@,
    {
        self.record
    }

    /// The canonical name as owned text, with no decoration.
    pub fn to_string(&self) -> (r: String)
        ensures
            r@ == self@.name,
    {
        self.record.to_string()
    }

    /// The canonical name.
    pub fn as_str(&self) -> (r: &'static str)
        ensures
            r@ == self@.name,
    {
        self.record.as_str()
    }

    /// The canonical name as its UTF-8 bytes.
    pub fn as_bytes(&self) -> (r: &'static [u8])
        ensures
            r@ == vstd::utf8::encode_utf8(self@.name),
    {
        self.record.as_bytes()
    }
}

impl CharacterSet for Variant {
    open spec fn name_text(&self) -> Seq<char> {
        self@.name
    }

    open spec fn preferred_mime_name_text(&self) -> Option<Seq<char>> {
        self@.preferred_mime_name
    }

    open spec fn alias_texts(&self) -> Seq<Seq<char>> {
        self@.aliases
    }

    fn preferred_mime_name(&self) -> (r: Option<&'static str>) {
        self.record.preferred_mime_name()
    }

    fn name(&self) -> (r: &'static str) {
        self.record.name()
    }

    fn aliases(&self) -> (r: &'static [&'static str]) {
        self.record.aliases()
    }
}

impl<T: CharacterSet> PartialEq<T> for Variant {
    /// Equal to any character-set value of the same canonical name: the
    /// result is `eq_spec` of the two values.
    fn eq(&self, other: &T) -> (r: bool) {
        same_text(self.record.name(), other.name())
    }
}

impl<T: CharacterSet> PartialEqSpecImpl<T> for Variant {
    open spec fn obeys_eq_spec() -> bool {
        true
    }

    open spec fn eq_spec(&self, other: &T) -> bool {
        self.name_text() == other.name_text()
    }
}

/// The records of one configuration, fixed when the registry is built.
/// Every value satisfies `registry_wf`.
#[derive(Debug)]
pub struct Registry {
    records: Vec<Record>,
}

impl View for Registry {
    type V = Seq<RecordView>;

    closed spec fn view(&self) -> Seq<RecordView> {
        record_views(self.records@)
    }
}

impl Registry {
    /// Holds of every registry that exists at run time.
    #[verifier::type_invariant]
    pub open spec fn valid(self) -> bool {
        registry_wf(self@)
    }

    /// A registry of `records`, in the given order, if they can form one.
    ///
    /// The list is accepted exactly when it is not empty and no match key
    /// occurs in two of its records.
    pub fn new(records: Vec<Record>) -> (r: Option<Registry>)
        ensures
            r is Some <==> records@.len() > 0 && keys_disjoint(record_views(records@)),
            r matches Some(registry) ==> registry@ == record_views(records@) && registry_wf(
                registry@,
            ),
    {
        let ghost views = record_views(records@);
        let n: usize = records.len();
        if n == 0 {
            return None;
        }
        let mut j: usize = 0;
        while j < n
            invariant
                j <= n == records@.len(),
                views == record_views(records@),
                forall|b: int| 0 <= b < j ==> (#[trigger] views[b]).wf(),
                forall|a: int, b: int|
                    #![trigger views[a], views[b]]
                    0 <= a < b < j ==> views[a].match_keys.disjoint(views[b].match_keys),
            decreases n - j,
        {
            let later = &records[j];
            proof {
                use_type_invariant(later);
            }
            let mut i: usize = 0;
            while i < j
                invariant
                    i <= j < n == records@.len(),
                    views == record_views(records@),
                    *later == records@[j as int],
                    forall|a: int|
                        0 <= a < i ==> (#[trigger] views[a]).match_keys.disjoint(
                            views[j as int].match_keys,
                        ),
                decreases j - i,
            {
                if share_key(records[i].match_keys(), later.match_keys()) {
                    assert(!views[i as int].match_keys.disjoint(views[j as int].match_keys));
                    return None;
                }
                i += 1;
            }
            j += 1;
        }
        Some(Registry { records })
    }

    /// The number of records.
    pub fn len(&self) -> (n: usize)
        ensures
            n == self@.len(),
            n > 0,
    {
        proof {
            use_type_invariant(self);
        }
        self.records.len()
    }

    /// The variant at position `index`, if there is one.
    pub fn get(&self, index: usize) -> (r: Option<Variant>)
        ensures
            match r {
                Some(v) => index < self@.len() && v.tag() == index && v@ == self@[index as int],
                None => index >= self@.len(),
            },
    {
        if index < self.records.len() {
            Some(Variant { index, record: self.records[index] })
        } else {
            None
        }
    }

    /// All variants, in declaration order.
    pub fn variants(&self) -> (r: Vec<Variant>)
        ensures
            r@.len() == self@.len(),
            forall|i: int|
                0 <= i < r@.len() ==> (#[trigger] r@[i]).tag() == i && r@[i]@ == self@[i],
    {
        let mut out: Vec<Variant> = Vec::new();
        let mut i: usize = 0;
        while i < self.records.len()
            invariant
                i <= self.records@.len(),
                out@.len() == i,
                forall|j: int|
                    0 <= j < i ==> (#[trigger] out@[j]).tag() == j && out@[j]@ == self@[j],
            decreases self.records@.len() - i,
        {
            out.push(Variant { index: i, record: self.records[i] });
            i += 1;
        }
        out
    }

    /// Every match key of every record, in declaration order.
    pub fn match_keys(&self) -> (r: Vec<&'static str>)
        ensures
            texts(r@) == all_match_keys(self@),
    {
        let mut out: Vec<&'static str> = Vec::new();
        let mut i: usize = 0;
        assert(self@.take(0) =~= Seq::<RecordView>::empty());
        while i < self.records.len()
            invariant
                i <= self.records@.len(),
                texts(out@) == all_match_keys(self@.take(i as int)),
            decreases self.records@.len() - i,
        {
            let ghost before = out@;
            let keys = self.records[i].match_keys();
            push_keys(&mut out, keys);
            proof {
                let upto = self@.take(i + 1);
                assert(upto.drop_last() =~= self@.take(i as int));
                assert(upto.last() == self@[i as int]);
                assert(texts(out@) =~= texts(before) + texts(keys@));
            }
            i += 1;
        }
        assert(self@.take(self@.len() as int) =~= self@);
        out
    }

    /// Resolves `s` to the record that claims it, ignoring ASCII case.
    ///
    /// Succeeds with the first record, in declaration order, one of whose
    /// match keys is the upper-case form of `s`. If there is none, the error
    /// lists the match keys of the whole registry and keeps `s` as given.
    pub fn from_str(&self, s: &str) -> (r: Result<Variant, InvalidCharacterSetNameError>)
        ensures
            match r {
                Ok(v) => resolves_to(self@, s@, v.tag()) && v@ == self@[v.tag()],
                Err(e) => {
                    &&& unresolved(self@, s@)
                    &&& e.required_texts() == all_match_keys(self@)
                    &&& e.found_text() == s@
                },
            },
    {
        let key = s.to_ascii_uppercase();
        let mut i: usize = 0;
        while i < self.records.len()
            invariant
                i <= self.records@.len(),
                key@ == crate::text::ascii_upper(s@),
                forall|j: int| 0 <= j < i ==> !(#[trigger] self@[j]).matches(s@),
            decreases self.records@.len() - i,
        {
            let record = self.records[i];
            if holds_text(record.match_keys(), key.as_str()) {
                return Ok(Variant { index: i, record });
            }
            i += 1;
        }
        Err(InvalidCharacterSetNameError::with_spellings(self.match_keys(), s))
    }
}

} // verus!
