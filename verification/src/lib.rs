//! Names of character sets.
//!
//! A [`Record`] is one character-set definition: a canonical name, an
//! optional preferred MIME name, the aliases, and the upper-case match keys
//! under which input is recognised. A [`Registry`] is a fixed, non-empty list
//! of records no two of which claim the same match key. Both resolve a string
//! to a record without regard to ASCII case, and report a string that matches
//! nothing as an [`InvalidCharacterSetNameError`].
//!
//! Nothing here converts text between character sets.

pub mod character_set;
pub mod error;
pub mod laws;
pub mod record;
pub mod registry;
pub mod text;

pub use character_set::CharacterSet;
pub use error::InvalidCharacterSetNameError;
pub use record::Record;
pub use registry::{Registry, Variant};
