//! Lints filenames that will break on Windows, macOS, or cloud sync.
//!
//! A name that is legal where it was created can be impossible to check out, open
//! or sync somewhere else: Windows reserves device names and eight punctuation
//! characters, silently strips trailing dots and spaces, and caps paths; macOS
//! re-encodes names into decomposed Unicode; case-insensitive volumes merge names
//! that differ only by case; and cloud clients reject or skip their own reserved
//! names. This library finds all of it, and plans a concrete, collision-safe
//! rename for every mechanical problem.
//!
//! Everything here works on plain values, without access to a filesystem.

use vstd::prelude::*;

pub mod bumps;
pub mod check_laws;
pub mod checks;
pub mod cli;
pub mod cli_laws;
pub mod compose_laws;
pub mod engine;
pub mod fix_keys;
pub mod fix_laws;
pub mod fixname;
pub mod json;
pub mod json_laws;
pub mod mend_laws;
pub mod message_laws;
pub mod note_laws;
pub mod numerals;
pub mod order;
pub mod order_laws;
pub mod output_laws;
pub mod path_laws;
pub mod paths;
pub mod place_laws;
pub mod plan_laws;
pub mod repair_laws;
pub mod reply_laws;
pub mod report;
pub mod rules;
pub mod run;
pub mod scan_laws;
pub mod selection_laws;
pub mod split_laws;
pub mod text;
pub mod text_laws;
pub mod traces;
pub mod unicode;
pub mod unicode_clean;
pub mod unicode_compose;
pub mod unicode_cuts;
pub mod unicode_data;
pub mod unicode_decomp;
pub mod unicode_laws;
pub mod unicode_pairs;
pub mod unicode_rows;
pub mod unicode_upper_rows;
pub mod utf8;
pub mod walk_laws;
pub mod walker;
pub mod whole_laws;

verus! {

/// The version of the library.
pub const VERSION: &'static str = "0.1.0";

} // verus!
