use vstd::prelude::*;

use crate::identity::Identity;

verus! {

/// The global state singleton: holds the current owner. Read by every
/// owner-gated operation; written only at bootstrap and by ownership
/// transfer. After initialization the owner is never the zero identity.
#[derive(Clone, Copy, PartialEq, Eq, Structural, Debug)]
pub struct State {
    pub owner: Identity,
    pub request_counter: u64,
}

/// One request slot, keyed by its caller-chosen `req_id`.
///
/// A slot is available when `caller` is the zero identity (equivalently
/// `is_active` is false and `balance` is zero); a request id may be reused
/// only while its slot is available. While active, `caller` and `balance`
/// hold the pending credit.
#[derive(Clone, Copy, PartialEq, Eq, Structural, Debug)]
pub struct Request {
    pub req_id: u128,
    pub caller: Identity,
    pub balance: u64,
    pub is_active: bool,
}

/// A user account, keyed by its owning identity: holds the settled balance.
/// Created lazily on the first confirmation addressed to that identity and
/// mutated only during confirmation (credits only).
#[derive(Clone, Copy, PartialEq, Eq, Structural, Debug)]
pub struct UserAccount {
    pub owner: Identity,
    pub balance: u64,
}

/// The full contents of a request slot, as returned by the owner-only
/// introspection operation.
#[derive(Clone, Copy, PartialEq, Eq, Structural, Debug)]
pub struct RequestData {
    pub req_id: u128,
    pub caller: Identity,
    pub balance: u64,
    pub is_active: bool,
}

/// Audit record of an ownership transfer (bootstrap counts as a transfer
/// from the zero identity).
#[derive(Clone, Copy, PartialEq, Eq, Structural, Debug)]
pub struct OwnershipChanged {
    pub prev_owner: Identity,
    pub new_owner: Identity,
}

/// Audit record of an admitted submission.
#[derive(Clone, Copy, PartialEq, Eq, Structural, Debug)]
pub struct Submission {
    pub req_id: u128,
    pub caller: Identity,
    pub amount: u64,
}

/// Audit record of a settled confirmation, carrying the amount that was
/// actually credited.
#[derive(Clone, Copy, PartialEq, Eq, Structural, Debug)]
pub struct Confirmation {
    pub req_id: u128,
    pub user: Identity,
    pub amount: u64,
}

/// One entry of the append-only audit log. Exactly one event is appended
/// per successful mutating operation, never on failure.
#[derive(Clone, Copy, PartialEq, Eq, Structural, Debug)]
pub enum Event {
    OwnershipChanged(OwnershipChanged),
    Submission(Submission),
    Confirmation(Confirmation),
}

} // verus!
