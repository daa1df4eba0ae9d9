//! What every character-set value exposes: its canonical name, its preferred
//! MIME name where one is registered, and its aliases.

use crate::text::{option_text, texts};
use vstd::prelude::*;

verus! {

/// A value that names one character set.
///
/// Two such values, of whatever types, stand for the same character set
/// exactly when their canonical names are equal.
///
/// The three models say what the three methods return. A verified
/// implementation defines the models and is held to them. An implementation
/// in unverified code cannot define them: it keeps the defaults, of which
/// nothing is known, and what is proved of generic code then rests on its
/// methods returning the same values on every call.
pub trait CharacterSet {
    /// The canonical name, as a text.
    open spec fn name_text(&self) -> Seq<char> {
        arbitrary()
    }

    /// The preferred MIME name, as a text, where one is registered.
    open spec fn preferred_mime_name_text(&self) -> Option<Seq<char>> {
        arbitrary()
    }

    /// The aliases in display case, as texts, in their listed order.
    open spec fn alias_texts(&self) -> Seq<Seq<char>> {
        arbitrary()
    }

    /// The name preferred in MIME contexts, if the character set has one.
    fn preferred_mime_name(&self) -> (r: Option<&'static str>)
        ensures
            option_text(r) == self.preferred_mime_name_text(),
    ;

    /// The canonical name.
    fn name(&self) -> (r: &'static str)
        ensures
            r@ == self.name_text(),
    ;

    /// All alternate spellings, in display case.
    fn aliases(&self) -> (r: &'static [&'static str])
        ensures
            texts(r@) == self.alias_texts(),
    ;
}

} // verus!
