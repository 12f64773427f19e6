//! Management of license headers at the top of source files.
//!
//! A configured header template may contain the year placeholder `{{YEAR}}`,
//! which stands for any four decimal digits when a file is checked for the
//! header.  The library compiles a template into a matching pattern, decides
//! whether a file's leading bytes carry the header, and computes the new
//! content when the header is applied to or removed from a file.  All file
//! reading and writing is left to the caller: the functions here work on the
//! bytes and strings the caller hands in.

pub mod check;
pub mod cli;
pub mod config;
pub mod errors;
pub mod licenser;
pub mod pattern;
