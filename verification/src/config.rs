//! The configuration the tool runs with.

use vstd::prelude::*;

verus! {

/// The loaded configuration: the header template text, which may contain
/// the year placeholder `{{YEAR}}` and may span several lines.
#[derive(Debug)]
pub struct Config {
    pub headers: String,
}

} // verus!
