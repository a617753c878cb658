//! Wordlist mangling: each word is turned into an ordered, duplicate-free
//! list of variants (case changes, reversal, suffixes, numeric and token
//! affixes), selected by a set of flags.
pub mod dedup;
pub mod mangle;
pub mod text;

pub use dedup::dedup_strings;
pub use mangle::{mangle, MangleConfig};
