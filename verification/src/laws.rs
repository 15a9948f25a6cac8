use vstd::prelude::*;

use crate::errors::ErrorCode;
use crate::identity::Identity;
use crate::model::{LedgerModel, SlotModel};

verus! {

/// A submission followed immediately by a second submission under the same
/// request id (no confirmation in between) fails with
/// `RequestIdAlreadyUsed` and leaves the first submission's data — and the
/// whole state — unchanged.
pub proof fn lemma_resubmit_rejected(
    s: LedgerModel,
    c1: Identity,
    a1: u64,
    c2: Identity,
    a2: u64,
    req_id: u128,
)
    requires
        !c1.is_zero(),
    ensures
        ({
            let (s1, r1) = s.submit_step(c1, req_id, a1);
            let (s2, r2) = s1.submit_step(c2, req_id, a2);
            &&& r2 == Err::<(), ErrorCode>(ErrorCode::RequestIdAlreadyUsed)
            &&& s2 == s1
        }),
{
}

/// A confirmation attempted by anyone but the current owner fails with
/// `NotOwner` and leaves balances and request state — the whole state —
/// unchanged, whatever the slot holds.
pub proof fn lemma_confirm_non_owner(s: LedgerModel, caller: Identity, req_id: u128)
    requires
        s.owner != Some(caller),
    ensures
        s.confirm_step(caller, req_id) == (s, Err::<(), ErrorCode>(ErrorCode::NotOwner)),
{
}

/// A single confirmation of an active request by the owner credits the
/// submitter's balance by exactly the pending amount, resets the slot to
/// available, and thereby permits the same request id to be reused by a
/// subsequent submission.
pub proof fn lemma_confirm_credits(
    s: LedgerModel,
    owner: Identity,
    req_id: u128,
    next_caller: Identity,
    next_amount: u64,
)
    requires
        s.owner == Some(owner),
        s.requests[req_id].is_active,
        s.balances[s.requests[req_id].caller] + s.requests[req_id].balance <= u64::MAX,
        !next_caller.is_zero(),
    ensures
        ({
            let (s1, r1) = s.confirm_step(owner, req_id);
            &&& r1 == Ok::<(), ErrorCode>(())
            &&& s1.balances[s.requests[req_id].caller] == s.balances[s.requests[req_id].caller]
                + s.requests[req_id].balance
            &&& s1.requests[req_id] == SlotModel::available()
            &&& s1.submit_step(next_caller, req_id, next_amount).1 == Ok::<(), ErrorCode>(())
        }),
{
}

/// Confirming the same request id twice in a row succeeds once and fails
/// the second time with `IncorrectRequestId`: the balance is credited
/// exactly once and the second attempt changes nothing.
pub proof fn lemma_confirm_twice(s: LedgerModel, owner: Identity, req_id: u128)
    requires
        s.owner == Some(owner),
        s.requests[req_id].is_active,
        s.balances[s.requests[req_id].caller] + s.requests[req_id].balance <= u64::MAX,
    ensures
        ({
            let (s1, r1) = s.confirm_step(owner, req_id);
            let (s2, r2) = s1.confirm_step(owner, req_id);
            &&& r1 == Ok::<(), ErrorCode>(())
            &&& r2 == Err::<(), ErrorCode>(ErrorCode::IncorrectRequestId)
            &&& s2 == s1
            &&& s1.balances[s.requests[req_id].caller] == s.balances[s.requests[req_id].caller]
                + s.requests[req_id].balance
        }),
{
}

/// When the submitter's balance is at the 64-bit maximum and the pending
/// amount is positive, confirmation fails with `BalanceOverflow`: the
/// request remains active and no balance — no state at all — changes.
pub proof fn lemma_confirm_overflow(s: LedgerModel, owner: Identity, req_id: u128)
    requires
        s.owner == Some(owner),
        s.requests[req_id].is_active,
        s.balances[s.requests[req_id].caller] == u64::MAX,
        s.requests[req_id].balance > 0,
    ensures
        s.confirm_step(owner, req_id) == (s, Err::<(), ErrorCode>(ErrorCode::BalanceOverflow)),
{
}

/// An ownership transfer by the current owner to the zero identity fails
/// with `NewOwnerIsZero` and leaves the owner — the whole state —
/// unchanged. (A transfer attempted by anyone else fails earlier, with
/// `NotOwner`.)
pub proof fn lemma_change_to_zero_rejected(s: LedgerModel, owner: Identity)
    requires
        s.owner == Some(owner),
    ensures
        s.change_ownership_step(owner, Identity::spec_zero()) == (
            s,
            Err::<(), ErrorCode>(ErrorCode::NewOwnerIsZero),
        ),
{
}

} // verus!
