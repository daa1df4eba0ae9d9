//! What holds of every well-formed registry, proved over the models that the
//! contracts of `Record` and `Registry` use.

use crate::character_set::CharacterSet;
use crate::record::{upper_forms, Record, RecordView};
use crate::registry::{all_match_keys, registry_wf, resolves_to, unresolved, Variant};
use crate::text::{
    ascii_upper, lemma_ascii_upper_idempotent, lemma_same_ignoring_ascii_case,
    same_ignoring_ascii_case,
};
use vstd::prelude::*;
use vstd::std_specs::cmp::PartialEqSpec;

verus! {

/// A well-formed record matches every input that is, up to ASCII case, one
/// of its spellings, and no other input.
pub proof fn lemma_matches_iff_spelling(record: RecordView, input: Seq<char>)
    requires
        record.wf(),
    ensures
        record.matches(input) <==> exists|k: int|
            0 <= k < record.spellings().len() && same_ignoring_ascii_case(
                input,
                #[trigger] record.spellings()[k],
            ),
{
    let forms = upper_forms(record.spellings());
    let key = ascii_upper(input);
    assert(record.match_keys.to_set().contains(key) == forms.to_set().contains(key));
    if record.matches(input) {
        let k: int = choose|k: int| 0 <= k < forms.len() && forms[k] == key;
        lemma_same_ignoring_ascii_case(input, record.spellings()[k]);
    }
    if exists|k: int|
        0 <= k < record.spellings().len() && same_ignoring_ascii_case(
            input,
            #[trigger] record.spellings()[k],
        ) {
        let k: int = choose|k: int|
            0 <= k < record.spellings().len() && same_ignoring_ascii_case(
                input,
                #[trigger] record.spellings()[k],
            );
        lemma_same_ignoring_ascii_case(input, record.spellings()[k]);
        assert(forms[k] == key);
        assert(forms.contains(key));
    }
}

/// In a well-formed registry an input that a record matches resolves to
/// that record, wherever the record stands.
pub proof fn lemma_match_resolves(records: Seq<RecordView>, i: int, input: Seq<char>)
    requires
        registry_wf(records),
        0 <= i < records.len(),
        records[i].matches(input),
    ensures
        resolves_to(records, input, i),
{
    let key = ascii_upper(input);
    let y: int = choose|y: int|
        0 <= y < records[i].match_keys.len() && records[i].match_keys[y] == key;
    assert forall|j: int| 0 <= j < i implies !(#[trigger] records[j]).matches(input) by {
        assert(records[j].match_keys.disjoint(records[i].match_keys));
        if records[j].matches(input) {
            let x: int = choose|x: int|
                0 <= x < records[j].match_keys.len() && records[j].match_keys[x] == key;
            assert(records[j].match_keys[x] == records[i].match_keys[y]);
        }
    }
}

/// Case insensitivity: every ASCII-case permutation of an alias resolves to
/// the record that lists the alias.
pub proof fn lemma_alias_resolves(records: Seq<RecordView>, i: int, a: int, input: Seq<char>)
    requires
        registry_wf(records),
        0 <= i < records.len(),
        0 <= a < records[i].aliases.len(),
        same_ignoring_ascii_case(input, records[i].aliases[a]),
    ensures
        resolves_to(records, input, i),
{
    assert(records[i].spellings()[a + 1] == records[i].aliases[a]);
    lemma_matches_iff_spelling(records[i], input);
    lemma_match_resolves(records, i, input);
}

/// The canonical name of a record, in any ASCII case, resolves to the record.
pub proof fn lemma_name_resolves(records: Seq<RecordView>, i: int, input: Seq<char>)
    requires
        registry_wf(records),
        0 <= i < records.len(),
        same_ignoring_ascii_case(input, records[i].name),
    ensures
        resolves_to(records, input, i),
{
    assert(records[i].spellings()[0] == records[i].name);
    lemma_matches_iff_spelling(records[i], input);
    lemma_match_resolves(records, i, input);
}

/// Every match key, as it is listed in a failed resolution, resolves to the
/// record that holds it.
pub proof fn lemma_match_key_resolves(records: Seq<RecordView>, i: int, k: int)
    requires
        registry_wf(records),
        0 <= i < records.len(),
        0 <= k < records[i].match_keys.len(),
    ensures
        resolves_to(records, records[i].match_keys[k], i),
{
    let record = records[i];
    let key = record.match_keys[k];
    let forms = upper_forms(record.spellings());
    assert(record.match_keys.to_set().contains(key));
    assert(forms.to_set().contains(key));
    let f: int = choose|f: int| 0 <= f < forms.len() && forms[f] == key;
    lemma_ascii_upper_idempotent(record.spellings()[f]);
    assert(record.match_keys.contains(ascii_upper(key)));
    lemma_match_resolves(records, i, key);
}

/// Disjointness: two distinct records of a well-formed registry have no
/// match key in common.
pub proof fn lemma_match_keys_disjoint(records: Seq<RecordView>, i: int, j: int)
    requires
        registry_wf(records),
        0 <= i < records.len(),
        0 <= j < records.len(),
        i != j,
    ensures
        records[i].match_keys.to_set().disjoint(records[j].match_keys.to_set()),
{
    let a = records[i].match_keys;
    let b = records[j].match_keys;
    if i < j {
        assert(a.disjoint(b));
    } else {
        assert(b.disjoint(a));
    }
    assert forall|key: Seq<char>| a.to_set().contains(key) implies !b.to_set().contains(key) by {
        if b.contains(key) {
            let x: int = choose|x: int| 0 <= x < a.len() && a[x] == key;
            let y: int = choose|y: int| 0 <= y < b.len() && b[y] == key;
            assert(a[x] == b[y]);
        }
    }
}

/// Two distinct records of a well-formed registry have different canonical
/// names, also when the names are compared without regard to ASCII case.
pub proof fn lemma_names_distinct(records: Seq<RecordView>, i: int, j: int)
    requires
        registry_wf(records),
        0 <= i < records.len(),
        0 <= j < records.len(),
        i != j,
    ensures
        !same_ignoring_ascii_case(records[i].name, records[j].name),
        records[i].name != records[j].name,
{
    if same_ignoring_ascii_case(records[i].name, records[j].name) {
        lemma_name_resolves(records, j, records[i].name);
        assert(same_ignoring_ascii_case(records[i].name, records[i].name));
        lemma_name_resolves(records, i, records[i].name);
        lemma_resolution_unique(records, records[i].name, i, j);
    }
    if records[i].name == records[j].name {
        assert(same_ignoring_ascii_case(records[i].name, records[j].name));
    }
}

/// Resolution has at most one outcome: an input resolves to one position
/// only, and an input that resolves is not unresolved.
pub proof fn lemma_resolution_unique(records: Seq<RecordView>, input: Seq<char>, i: int, j: int)
    requires
        resolves_to(records, input, i),
        resolves_to(records, input, j),
    ensures
        i == j,
        !unresolved(records, input),
{
}

/// Unknown input fails: an input whose upper-case form is the upper-case
/// form of no canonical name and of no alias is unresolved.
pub proof fn lemma_unknown_unresolved(records: Seq<RecordView>, input: Seq<char>)
    requires
        registry_wf(records),
        forall|i: int, k: int|
            0 <= i < records.len() && 0 <= k < records[i].spellings().len() ==> ascii_upper(input)
                != ascii_upper(#[trigger] records[i].spellings()[k]),
    ensures
        unresolved(records, input),
{
    assert forall|i: int| 0 <= i < records.len() implies !(#[trigger] records[i]).matches(
        input,
    ) by {
        lemma_matches_iff_spelling(records[i], input);
        if records[i].matches(input) {
            let k: int = choose|k: int|
                0 <= k < records[i].spellings().len() && same_ignoring_ascii_case(
                    input,
                    #[trigger] records[i].spellings()[k],
                );
            lemma_same_ignoring_ascii_case(input, records[i].spellings()[k]);
        }
    }
}

/// The list that a failed resolution against a registry carries is complete
/// and holds nothing else: a text is in it exactly when it is a match key of
/// some record.
pub proof fn lemma_all_match_keys(records: Seq<RecordView>, key: Seq<char>)
    ensures
        all_match_keys(records).contains(key) <==> exists|i: int|
            0 <= i < records.len() && (#[trigger] records[i]).match_keys.contains(key),
    decreases records.len(),
{
    if records.len() > 0 {
        let front = records.drop_last();
        let last = records.last();
        let all = all_match_keys(records);
        assert(all == all_match_keys(front) + last.match_keys);
        lemma_all_match_keys(front, key);
        if all.contains(key) {
            let x: int = choose|x: int| 0 <= x < all.len() && all[x] == key;
            if x < all_match_keys(front).len() {
                assert(all_match_keys(front)[x] == key);
                let i: int = choose|i: int|
                    0 <= i < front.len() && (#[trigger] front[i]).match_keys.contains(key);
                assert(records[i] == front[i]);
            } else {
                assert(last.match_keys[x - all_match_keys(front).len()] == key);
                assert(records[records.len() - 1].match_keys.contains(key));
            }
        }
        if exists|i: int|
            0 <= i < records.len() && (#[trigger] records[i]).match_keys.contains(key) {
            let i: int = choose|i: int|
                0 <= i < records.len() && (#[trigger] records[i]).match_keys.contains(key);
            if i < front.len() {
                assert(front[i] == records[i]);
                let x: int = choose|x: int|
                    0 <= x < all_match_keys(front).len() && all_match_keys(front)[x] == key;
                assert(all[x] == key);
            } else {
                let y: int = choose|y: int|
                    0 <= y < last.match_keys.len() && last.match_keys[y] == key;
                assert(all[all_match_keys(front).len() + y] == key);
            }
        }
    }
}

/// Cross-kind equality: a record and a variant are equal, from either side,
/// exactly when their canonical names are the same text.
pub proof fn lemma_cross_kind_equality(record: Record, variant: Variant)
    ensures
        record.eq_spec(&variant) <==> record@.name == variant@.name,
        variant.eq_spec(&record) <==> record@.name == variant@.name,
        record.eq_spec(&variant) <==> variant.eq_spec(&record),
{
}

/// Equality with a character-set value of any kind goes by the canonical
/// name alone, and is symmetric between a record and a variant.
pub proof fn lemma_equality_by_name<T: CharacterSet>(record: Record, variant: Variant, other: T)
    ensures
        record.eq_spec(&other) <==> record.name_text() == other.name_text(),
        variant.eq_spec(&other) <==> variant.name_text() == other.name_text(),
{
}

} // verus!
