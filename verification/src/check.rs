//! A standalone header check on a file prefix.

use crate::pattern::{expand_template, expand_year, lit_match, lit_matches};
use vstd::prelude::*;

verus! {

/// The header with every year placeholder replaced by a four-digit
/// stand-in, used only to size the probe read from the front of a file.
pub fn fake_header(header: &str) -> (r: String)
    ensures
        r@ == expand_year(header@),
{
    expand_template(header)
}

/// Decides whether the given file prefix carries the expected header.  This
/// bare check does not ask for a line terminator after the header; the
/// strict check used before any mutation is [`crate::pattern::HeaderPattern::is_match`].
pub fn contains_header(content: &str, header: &str) -> (b: bool)
    ensures
        b == lit_matches(header@, content@),
{
    lit_match(header, content)
}

} // verus!
