//! Typed failures and the message-carrying error value handed to the host.
//!
//! Every recoverable failure of the engine is an [`AtmosError`] variant; the
//! boundary layer renders one as a [`Runtime`], whose message string travels
//! to the host's error-reporting channel.

use vstd::prelude::*;

verus! {

broadcast use vstd::string::to_string_from_display_ensures_for_str;

/// A recoverable failure surfaced to the caller. None of these aborts the
/// process: the current operation fails and other mixtures are unaffected.
#[derive(Clone, Copy, PartialEq, Eq, Structural, Debug)]
pub enum AtmosError {
    /// A handle does not resolve to a live mixture slot.
    InvalidHandle,
    /// A species identifier was not present when the catalog was built.
    UnknownGasType,
    /// A species index at or beyond the catalog's size.
    OutOfRangeIndex,
    /// A numeric input outside the representable domain `[0, QUANTITY_CAP]`.
    InvalidNumericInput,
    /// A boundary call arrived with too few arguments.
    MissingArgument,
}

/// An error message on its way to the host.
pub struct Runtime {
    pub message: String,
}

impl Runtime {
    /// Wraps a message string.
    pub fn new(message: String) -> (r: Self)
        ensures
            r.message@ == message@,
    {
        Runtime { message }
    }
}

impl AtmosError {
    /// Renders the failure as a [`Runtime`] with a fixed descriptive message.
    pub fn to_runtime(self) -> (r: Runtime)
        ensures
            self is InvalidHandle ==> r.message@ == "invalid mixture reference"@,
            self is UnknownGasType ==> r.message@ == "unknown gas type"@,
            self is OutOfRangeIndex ==> r.message@ == "gas species index out of range"@,
            self is InvalidNumericInput ==> r.message@ == "numeric input outside the accepted domain"@,
            self is MissingArgument ==> r.message@ == "missing argument"@,
    {
        match self {
            AtmosError::InvalidHandle => Runtime::new("invalid mixture reference".to_string()),
            AtmosError::UnknownGasType => Runtime::new("unknown gas type".to_string()),
            AtmosError::OutOfRangeIndex => Runtime::new("gas species index out of range".to_string()),
            AtmosError::InvalidNumericInput => Runtime::new(
                "numeric input outside the accepted domain".to_string(),
            ),
            AtmosError::MissingArgument => Runtime::new("missing argument".to_string()),
        }
    }
}

} // verus!
