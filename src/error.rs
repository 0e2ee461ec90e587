//! Failures reported to callers.
use vstd::prelude::*;

verus! {

/// Why an operation was refused.
#[derive(Clone, Copy, Debug, PartialEq, Eq, Structural)]
pub enum PowError {
    /// A byte-string input does not have its fixed length.
    InvalidLength,
    /// A mining operation was called before any session was set up.
    SessionNotReady,
}

} // verus!
