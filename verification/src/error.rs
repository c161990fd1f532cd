//! The failures the library reports.

use vstd::prelude::*;

verus! {

/// Every failure the library itself can report. External-command failures
/// happen outside the library and are not represented here.
#[derive(Clone, Copy, Debug, PartialEq, Eq, Structural)]
pub enum Error {
    /// A compositor token other than `"x11"` or `"sway"`.
    UnsupportedCompositor,
    /// The `set` target is not an existing regular file.
    NotAFile,
    /// The `random` target is not an existing directory.
    NotADirectory,
    /// The scanned directory holds no image-typed entry.
    NoEligibleFiles,
}

/// The single-line message each failure is reported with.
pub open spec fn message_spec(e: Error) -> Seq<char> {
    match e {
        Error::UnsupportedCompositor => "Unsupported compositor type."@,
        Error::NotAFile => "Path is not a file."@,
        Error::NotADirectory => "Path is not a directory."@,
        Error::NoEligibleFiles => "No eligible files found."@,
    }
}

impl Error {
    /// The human-readable message for this failure.
    pub fn message(&self) -> (r: String)
        ensures
            r@ == message_spec(*self),
    {
        match self {
            Error::UnsupportedCompositor => String::from_str("Unsupported compositor type."),
            Error::NotAFile => String::from_str("Path is not a file."),
            Error::NotADirectory => String::from_str("Path is not a directory."),
            Error::NoEligibleFiles => String::from_str("No eligible files found."),
        }
    }
}

} // verus!
