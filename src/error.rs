use vstd::prelude::*;

verus! {

/// Errors reported by the codec, the resolver and the dispatcher.
#[derive(Debug, Clone, Copy, PartialEq, Eq, Structural)]
pub enum UwbError {
    /// Malformed or inconsistent caller-supplied data.
    BadParameters,
    /// The dispatcher has not been created yet.
    NotInitialized,
    /// The dispatcher has been destroyed.
    AlreadyDestroyed,
    /// No fresh dispatcher handle is left to issue.
    Unknown,
}

} // verus!
