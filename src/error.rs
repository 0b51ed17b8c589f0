//! Why a piece of host information could not be determined.
use vstd::prelude::*;

verus! {

/// A failure to determine one field of the report.
#[derive(Debug, Clone, Copy, PartialEq, Eq, Structural)]
pub enum InfoError {
    /// No line carries the expected key.
    MissingKey,
    /// The value does not have the expected `<number> <unit>` shape, or the
    /// number is not an unsigned integer.
    Malformed,
    /// The memory total is given in a unit other than `kB`.
    UnsupportedUnit,
    /// A kernel identification field is not valid UTF-8.
    Encoding,
    /// The graphics driver did not report both its identity and its version.
    NoDriverInfo,
}

impl InfoError {
    /// A message for the user.
    pub fn message(&self) -> (r: &'static str) {
        match self {
            InfoError::MissingKey => "expected key not found",
            InfoError::Malformed => "value is not of the form `<number> <unit>`",
            InfoError::UnsupportedUnit => "unsupported memory unit",
            InfoError::Encoding => "kernel information is not valid text",
            InfoError::NoDriverInfo => "Couldn't get OpenGL info",
        }
    }
}

} // verus!
