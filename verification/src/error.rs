//! The error taxonomy shared by every component of the driver core.

use vstd::prelude::*;

verus! {

/// Why an operation of the driver core did not succeed.
#[derive(Clone, Copy, Debug, PartialEq, Eq, Structural)]
pub enum Error {
    /// A dependency was used before it was made ready.
    Uninitialized,
    /// A required service or transport is absent.
    NotFound,
    /// An allocation or registration could not be satisfied.
    OutOfResources,
    /// A caller handed over a value that the operation cannot accept.
    InvalidArgument,
    /// A device report is malformed; never leaves the receiver that saw it.
    InvalidReport,
    /// The reporting service rejected a record, with the status it returned.
    RecordingFailed { status: usize },
}

} // verus!
