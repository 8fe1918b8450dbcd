use vstd::prelude::*;

verus! {

/// Outcome of one attempt to make progress on a pending operation.
#[derive(Debug, Clone, PartialEq, Eq)]
pub enum PollOutcome<T> {
    /// The operation finished with this value.
    Ready(T),
    /// Nothing to deliver yet; the caller is woken when that changes.
    Pending,
}

} // verus!
