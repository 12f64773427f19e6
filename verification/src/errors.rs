//! The errors the library and its callers report.

use vstd::prelude::*;

verus! {

/// A failure while working on license headers.  Reading or writing files is
/// the caller's task, so the caller constructs `IOError` from whatever its
/// file operation reported.
#[derive(Debug)]
pub enum LicenseError {
    NotImplemented,
    IOError(String),
}

impl LicenseError {
    /// A short description of the error.
    pub fn message(&self) -> (r: String)
        ensures
            self is NotImplemented ==> r@ == "not implemented"@,
            self is IOError ==> r@ == "io error"@,
    {
        match self {
            LicenseError::NotImplemented => String::from_str("not implemented"),
            LicenseError::IOError(_) => String::from_str("io error"),
        }
    }
}

} // verus!
