//! The closed set of failure kinds that both resolvers report.

use vstd::prelude::*;
use vstd::string::*;

verus! {

/// Failure kinds of the two resolver operations.
#[derive(Debug, Clone, PartialEq, Eq)]
pub enum CttyError {
    /// No device node matches the requested identifier, or the platform
    /// reports that the process has no controlling terminal.
    NotFound,
    /// The kernel-exposed status record is malformed, truncated, or holds a
    /// non-numeric value where a device identifier is expected.
    SystemDataParseFailure,
    /// Reserved for permission-denied conditions distinguishable from
    /// `NotFound`.
    SystemPermissionFailure,
    /// An underlying open, read, or enumerate operation failed at the
    /// operating-system level; the payload preserves the originating cause.
    IOError(String),
}

impl CttyError {
    /// A human-readable description of the failure.
    pub fn message(&self) -> (r: String)
        ensures
            self is NotFound ==> r@ == "Controlling TTY for this process not found"@,
            self is SystemDataParseFailure ==> r@ == "System returned invalid data when looking up CTTY"@,
            self is SystemPermissionFailure ==> r@ == "Failed to request CTTY information from system"@,
            self is IOError ==> r@ == self->IOError_0@,
    {
        match self {
            CttyError::NotFound => String::from_str("Controlling TTY for this process not found"),
            CttyError::SystemDataParseFailure => String::from_str(
                "System returned invalid data when looking up CTTY",
            ),
            CttyError::SystemPermissionFailure => String::from_str(
                "Failed to request CTTY information from system",
            ),
            CttyError::IOError(cause) => cause.clone(),
        }
    }
}

} // verus!
