use vstd::prelude::*;

use crate::errors::ErrorCode;
use crate::identity::Identity;
use crate::records::{Confirmation, Event, OwnershipChanged, RequestData, Submission};

verus! {

/// Abstract contents of one request slot. Slots that were never touched
/// read as `available`; a confirmed slot is reset to `available`, which is
/// what makes its request id reusable.
#[verifier::ext_equal]
pub ghost struct SlotModel {
    pub caller: Identity,
    pub balance: u64,
    pub is_active: bool,
}

impl SlotModel {
    /// The state of a slot that is open for a fresh submission.
    pub open spec fn available() -> SlotModel {
        SlotModel { caller: Identity::spec_zero(), balance: 0, is_active: false }
    }
}

/// The abstract state of the whole ledger: the owner singleton (absent
/// before bootstrap), every request slot, every settled balance (absent
/// accounts read as zero), and the append-only audit log. The request and
/// balance maps are total, so a lookup needs no domain reasoning.
#[verifier::ext_equal]
pub ghost struct LedgerModel {
    pub owner: Option<Identity>,
    pub requests: Map<u128, SlotModel>,
    pub balances: Map<Identity, u64>,
    pub events: Seq<Event>,
}

impl LedgerModel {
    /// The state of a freshly created ledger: no owner, every slot
    /// available, every balance zero, no events.
    pub open spec fn init() -> LedgerModel {
        LedgerModel {
            owner: None,
            requests: Map::total(|id: u128| SlotModel::available()),
            balances: Map::total(|who: Identity| 0u64),
            events: Seq::empty(),
        }
    }

    /// Bootstrap: the first caller becomes owner; a second bootstrap is
    /// rejected and changes nothing.
    pub open spec fn initialize_step(self, caller: Identity) -> (LedgerModel, Result<(), ErrorCode>) {
        match self.owner {
            Some(_) => (self, Err(ErrorCode::AlreadyInitialized)),
            None => (
                LedgerModel {
                    owner: Some(caller),
                    requests: self.requests,
                    balances: self.balances,
                    events: self.events.push(Event::OwnershipChanged(OwnershipChanged {
                        prev_owner: Identity::spec_zero(),
                        new_owner: caller,
                    })),
                },
                Ok(()),
            ),
        }
    }

    /// Admission: the sole check is that the slot is available (its caller
    /// field is the zero identity); the amount is not validated, zero is
    /// accepted, and no ownership check is made.
    pub open spec fn submit_step(
        self,
        caller: Identity,
        req_id: u128,
        amount: u64,
    ) -> (LedgerModel, Result<(), ErrorCode>) {
        if !self.requests[req_id].caller.is_zero() {
            (self, Err(ErrorCode::RequestIdAlreadyUsed))
        } else {
            (
                LedgerModel {
                    owner: self.owner,
                    requests: self.requests.insert(
                        req_id,
                        SlotModel { caller, balance: amount, is_active: true },
                    ),
                    balances: self.balances,
                    events: self.events.push(Event::Submission(Submission { req_id, caller, amount })),
                },
                Ok(()),
            )
        }
    }

    /// Settlement, as a single all-or-nothing unit: only the owner may
    /// confirm, only an active slot can be confirmed, and an overflowing
    /// credit aborts the whole operation with the request left active.
    /// On success the submitter's balance grows by exactly the pending
    /// amount and the slot is reset to available.
    pub open spec fn confirm_step(self, caller: Identity, req_id: u128) -> (LedgerModel, Result<(), ErrorCode>) {
        if self.owner != Some(caller) {
            (self, Err(ErrorCode::NotOwner))
        } else if !self.requests[req_id].is_active {
            (self, Err(ErrorCode::IncorrectRequestId))
        } else if self.balances[self.requests[req_id].caller] + self.requests[req_id].balance > u64::MAX {
            (self, Err(ErrorCode::BalanceOverflow))
        } else {
            (
                LedgerModel {
                    owner: self.owner,
                    requests: self.requests.insert(req_id, SlotModel::available()),
                    balances: self.balances.insert(
                        self.requests[req_id].caller,
                        (self.balances[self.requests[req_id].caller] + self.requests[req_id].balance) as u64,
                    ),
                    events: self.events.push(Event::Confirmation(Confirmation {
                        req_id,
                        user: self.requests[req_id].caller,
                        amount: self.requests[req_id].balance,
                    })),
                },
                Ok(()),
            )
        }
    }

    /// Ownership transfer: owner-gated, and the zero identity is rejected
    /// as a target so the system is never left ownerless.
    pub open spec fn change_ownership_step(
        self,
        caller: Identity,
        new_owner: Identity,
    ) -> (LedgerModel, Result<(), ErrorCode>) {
        if self.owner != Some(caller) {
            (self, Err(ErrorCode::NotOwner))
        } else if new_owner.is_zero() {
            (self, Err(ErrorCode::NewOwnerIsZero))
        } else {
            (
                LedgerModel {
                    owner: Some(new_owner),
                    requests: self.requests,
                    balances: self.balances,
                    events: self.events.push(Event::OwnershipChanged(OwnershipChanged {
                        prev_owner: caller,
                        new_owner,
                    })),
                },
                Ok(()),
            )
        }
    }

    /// The full contents of the slot at `req_id`, as the owner-only
    /// introspection reads them (available slots read as reset).
    pub open spec fn request_data_at(self, req_id: u128) -> RequestData {
        RequestData {
            req_id,
            caller: self.requests[req_id].caller,
            balance: self.requests[req_id].balance,
            is_active: self.requests[req_id].is_active,
        }
    }

    /// Owner-only introspection: a pure read of the slot at `req_id`.
    pub open spec fn get_request_step(self, viewer: Identity, req_id: u128) -> Result<RequestData, ErrorCode> {
        if self.owner != Some(viewer) {
            Err(ErrorCode::NotOwner)
        } else {
            Ok(self.request_data_at(req_id))
        }
    }
}

} // verus!
