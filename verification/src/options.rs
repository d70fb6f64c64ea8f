//! The option source: a named configuration value, or a default when the
//! value is unset, split on `/` into an ordered option list.

use vstd::prelude::*;

use crate::text::{split_chars, split_on, str_to_chars, strings_of_chars};

verus! {

/// The option list that a raw configuration value denotes; when the value is
/// unset, the default takes its place.
pub open spec fn resolved_options(raw: Option<Seq<char>>, default: Seq<char>) -> Seq<Seq<char>> {
    match raw {
        Some(v) => split_on(v, '/'),
        None => split_on(default, '/'),
    }
}

/// Splits the configuration value, or the default when the value is unset,
/// on `/`. The literal split is kept — empty pieces stay, nothing is trimmed
/// or deduplicated — and the result is never empty.
pub fn resolve(value: Option<&str>, default: &str) -> (r: Vec<String>)
    ensures
        r.deep_view() == resolved_options(
            match value {
                Some(v) => Some(v@),
                None => None,
            },
            default@,
        ),
        r@.len() >= 1,
{
    let chosen: &str = match value {
        Some(v) => v,
        None => default,
    };
    let cs = str_to_chars(chosen);
    let pieces = split_chars(&cs, '/');
    strings_of_chars(&pieces)
}

} // verus!
