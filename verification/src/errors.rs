use vstd::prelude::*;

verus! {

/// The closed set of failure kinds. Each is fatal to the single operation
/// that raised it: the operation aborts before any mutation, so no partial
/// write is ever observable.
#[derive(Clone, Copy, PartialEq, Eq, Structural, Debug)]
pub enum ErrorCode {
    /// The caller lacks the authority required for an owner-gated operation.
    NotOwner,
    /// Admission was attempted on an already-active request slot.
    RequestIdAlreadyUsed,
    /// Confirmation was attempted on a slot that is not currently active.
    IncorrectRequestId,
    /// The target of an ownership transfer is the invalid zero identity.
    NewOwnerIsZero,
    /// The credit would exceed the representable balance range; the request
    /// stays active and the balance is unchanged.
    BalanceOverflow,
    /// Bootstrap was invoked when the global state already exists.
    AlreadyInitialized,
}

} // verus!
