use vstd::prelude::*;

use crate::errors::ErrorCode;
use crate::identity::Identity;
use crate::model::{LedgerModel, SlotModel};
use crate::records::{Confirmation, Event, OwnershipChanged, Request, RequestData, State, Submission, UserAccount};

verus! {

/// No two stored request slots share a request id.
pub open spec fn unique_ids(reqs: Seq<Request>) -> bool {
    forall|i: int, j: int|
        0 <= i < j < reqs.len() ==> reqs[i].req_id != reqs[j].req_id
}

/// Some stored slot carries the given request id.
pub open spec fn has_req(reqs: Seq<Request>, req_id: u128) -> bool {
    exists|i: int| 0 <= i < reqs.len() && reqs[i].req_id == req_id
}

/// The index of the stored slot carrying the given request id.
pub open spec fn req_index(reqs: Seq<Request>, req_id: u128) -> int {
    choose|i: int| 0 <= i < reqs.len() && reqs[i].req_id == req_id
}

/// The abstract contents of a stored request slot.
pub open spec fn model_of(r: Request) -> SlotModel {
    SlotModel { caller: r.caller, balance: r.balance, is_active: r.is_active }
}

/// The abstract contents of the slot at `req_id`: the stored slot if one
/// exists, else an available slot.
pub open spec fn slot_of(reqs: Seq<Request>, req_id: u128) -> SlotModel {
    if has_req(reqs, req_id) {
        model_of(reqs[req_index(reqs, req_id)])
    } else {
        SlotModel::available()
    }
}

/// The request store as a total map from request id to slot contents.
pub open spec fn req_map(reqs: Seq<Request>) -> Map<u128, SlotModel> {
    Map::total(|req_id: u128| slot_of(reqs, req_id))
}

/// No two stored accounts share an owning identity.
pub open spec fn unique_owners(accts: Seq<UserAccount>) -> bool {
    forall|i: int, j: int|
        0 <= i < j < accts.len() ==> accts[i].owner != accts[j].owner
}

/// Some stored account is owned by the given identity.
pub open spec fn has_acct(accts: Seq<UserAccount>, who: Identity) -> bool {
    exists|i: int| 0 <= i < accts.len() && accts[i].owner == who
}

/// The index of the stored account owned by the given identity.
pub open spec fn acct_index(accts: Seq<UserAccount>, who: Identity) -> int {
    choose|i: int| 0 <= i < accts.len() && accts[i].owner == who
}

/// The settled balance of the given identity: the stored account's balance
/// if one exists, else zero.
pub open spec fn balance_in(accts: Seq<UserAccount>, who: Identity) -> u64 {
    if has_acct(accts, who) {
        accts[acct_index(accts, who)].balance
    } else {
        0
    }
}

/// The account store as a total map from identity to settled balance.
pub open spec fn bal_map(accts: Seq<UserAccount>) -> Map<Identity, u64> {
    Map::total(|who: Identity| balance_in(accts, who))
}

/// The slot stored at index `i` is the one that `slot_of` reads for its id.
proof fn lemma_slot_at(reqs: Seq<Request>, i: int)
    requires
        unique_ids(reqs),
        0 <= i < reqs.len(),
    ensures
        slot_of(reqs, reqs[i].req_id) == model_of(reqs[i]),
{
    let id = reqs[i].req_id;
    assert(0 <= i < reqs.len() && reqs[i].req_id == id);
    assert(has_req(reqs, id));
    let j = req_index(reqs, id);
    if i < j {
        assert(reqs[i].req_id != reqs[j].req_id);
    }
    if j < i {
        assert(reqs[j].req_id != reqs[i].req_id);
    }
}

/// An id carried by no stored slot reads as an available slot.
proof fn lemma_no_slot(reqs: Seq<Request>, req_id: u128)
    requires
        forall|i: int| 0 <= i < reqs.len() ==> reqs[i].req_id != req_id,
    ensures
        slot_of(reqs, req_id) == SlotModel::available(),
{
    if has_req(reqs, req_id) {
        let j = req_index(reqs, req_id);
        assert(reqs[j].req_id != req_id);
    }
}

/// Overwriting the slot at index `i`, keeping its id, updates exactly that
/// id's entry of the request map.
proof fn lemma_req_update(reqs: Seq<Request>, i: int, r2: Request)
    requires
        unique_ids(reqs),
        0 <= i < reqs.len(),
        r2.req_id == reqs[i].req_id,
    ensures
        unique_ids(reqs.update(i, r2)),
        req_map(reqs.update(i, r2)) == req_map(reqs).insert(r2.req_id, model_of(r2)),
{
    let reqs2 = reqs.update(i, r2);
    assert forall|j: int, k: int| 0 <= j < k < reqs2.len() implies reqs2[j].req_id
        != reqs2[k].req_id by {
        assert(reqs[j].req_id != reqs[k].req_id);
    }
    assert forall|id: u128| #[trigger] slot_of(reqs2, id) == req_map(reqs).insert(
        r2.req_id,
        model_of(r2),
    )[id] by {
        if id == r2.req_id {
            lemma_slot_at(reqs2, i);
        } else {
            if has_req(reqs, id) {
                let j = req_index(reqs, id);
                assert(0 <= j < reqs.len() && reqs[j].req_id == id);
                lemma_slot_at(reqs, j);
                lemma_slot_at(reqs2, j);
            } else {
                assert forall|j: int| 0 <= j < reqs.len() implies reqs[j].req_id != id by {
                    assert(!(0 <= j < reqs.len() && reqs[j].req_id == id));
                }
                lemma_no_slot(reqs, id);
                assert forall|j: int| 0 <= j < reqs2.len() implies reqs2[j].req_id != id by {
                    if j != i {
                        assert(reqs[j].req_id != id);
                    }
                }
                lemma_no_slot(reqs2, id);
            }
        }
    }
    assert(req_map(reqs2) =~= req_map(reqs).insert(r2.req_id, model_of(r2)));
}

/// Appending a slot under a fresh id adds exactly that id's entry to the
/// request map.
proof fn lemma_req_push(reqs: Seq<Request>, r2: Request)
    requires
        unique_ids(reqs),
        !has_req(reqs, r2.req_id),
    ensures
        unique_ids(reqs.push(r2)),
        req_map(reqs.push(r2)) == req_map(reqs).insert(r2.req_id, model_of(r2)),
{
    let reqs2 = reqs.push(r2);
    assert forall|j: int, k: int| 0 <= j < k < reqs2.len() implies reqs2[j].req_id
        != reqs2[k].req_id by {
        if k < reqs.len() {
            assert(reqs[j].req_id != reqs[k].req_id);
        } else {
            assert(!(0 <= j < reqs.len() && reqs[j].req_id == r2.req_id));
        }
    }
    assert forall|id: u128| #[trigger] slot_of(reqs2, id) == req_map(reqs).insert(
        r2.req_id,
        model_of(r2),
    )[id] by {
        if id == r2.req_id {
            lemma_slot_at(reqs2, reqs.len() as int);
        } else {
            if has_req(reqs, id) {
                let j = req_index(reqs, id);
                assert(0 <= j < reqs.len() && reqs[j].req_id == id);
                lemma_slot_at(reqs, j);
                lemma_slot_at(reqs2, j);
            } else {
                assert forall|j: int| 0 <= j < reqs.len() implies reqs[j].req_id != id by {
                    assert(!(0 <= j < reqs.len() && reqs[j].req_id == id));
                }
                lemma_no_slot(reqs, id);
                assert forall|j: int| 0 <= j < reqs2.len() implies reqs2[j].req_id != id by {
                    if j < reqs.len() {
                        assert(reqs[j].req_id != id);
                    }
                }
                lemma_no_slot(reqs2, id);
            }
        }
    }
    assert(req_map(reqs2) =~= req_map(reqs).insert(r2.req_id, model_of(r2)));
}

/// The account stored at index `i` is the one that `balance_in` reads for
/// its owner.
proof fn lemma_acct_at(accts: Seq<UserAccount>, i: int)
    requires
        unique_owners(accts),
        0 <= i < accts.len(),
    ensures
        balance_in(accts, accts[i].owner) == accts[i].balance,
{
    let who = accts[i].owner;
    assert(0 <= i < accts.len() && accts[i].owner == who);
    assert(has_acct(accts, who));
    let j = acct_index(accts, who);
    if i < j {
        assert(accts[i].owner != accts[j].owner);
    }
    if j < i {
        assert(accts[j].owner != accts[i].owner);
    }
}

/// An identity owning no stored account reads as a zero balance.
proof fn lemma_no_acct(accts: Seq<UserAccount>, who: Identity)
    requires
        forall|i: int| 0 <= i < accts.len() ==> accts[i].owner != who,
    ensures
        balance_in(accts, who) == 0,
{
    if has_acct(accts, who) {
        let j = acct_index(accts, who);
        assert(accts[j].owner != who);
    }
}

/// Overwriting the account at index `i`, keeping its owner, updates exactly
/// that owner's entry of the balance map.
proof fn lemma_bal_update(accts: Seq<UserAccount>, i: int, a2: UserAccount)
    requires
        unique_owners(accts),
        0 <= i < accts.len(),
        a2.owner == accts[i].owner,
    ensures
        unique_owners(accts.update(i, a2)),
        bal_map(accts.update(i, a2)) == bal_map(accts).insert(a2.owner, a2.balance),
{
    let accts2 = accts.update(i, a2);
    assert forall|j: int, k: int| 0 <= j < k < accts2.len() implies accts2[j].owner
        != accts2[k].owner by {
        assert(accts[j].owner != accts[k].owner);
    }
    assert forall|who: Identity| #[trigger] balance_in(accts2, who) == bal_map(accts).insert(
        a2.owner,
        a2.balance,
    )[who] by {
        if who == a2.owner {
            lemma_acct_at(accts2, i);
        } else {
            if has_acct(accts, who) {
                let j = acct_index(accts, who);
                assert(0 <= j < accts.len() && accts[j].owner == who);
                lemma_acct_at(accts, j);
                lemma_acct_at(accts2, j);
            } else {
                assert forall|j: int| 0 <= j < accts.len() implies accts[j].owner != who by {
                    assert(!(0 <= j < accts.len() && accts[j].owner == who));
                }
                lemma_no_acct(accts, who);
                assert forall|j: int| 0 <= j < accts2.len() implies accts2[j].owner != who by {
                    if j != i {
                        assert(accts[j].owner != who);
                    }
                }
                lemma_no_acct(accts2, who);
            }
        }
    }
    assert(bal_map(accts2) =~= bal_map(accts).insert(a2.owner, a2.balance));
}

/// Appending an account under a fresh owner adds exactly that owner's entry
/// to the balance map.
proof fn lemma_bal_push(accts: Seq<UserAccount>, a2: UserAccount)
    requires
        unique_owners(accts),
        !has_acct(accts, a2.owner),
    ensures
        unique_owners(accts.push(a2)),
        bal_map(accts.push(a2)) == bal_map(accts).insert(a2.owner, a2.balance),
{
    let accts2 = accts.push(a2);
    assert forall|j: int, k: int| 0 <= j < k < accts2.len() implies accts2[j].owner
        != accts2[k].owner by {
        if k < accts.len() {
            assert(accts[j].owner != accts[k].owner);
        } else {
            assert(!(0 <= j < accts.len() && accts[j].owner == a2.owner));
        }
    }
    assert forall|who: Identity| #[trigger] balance_in(accts2, who) == bal_map(accts).insert(
        a2.owner,
        a2.balance,
    )[who] by {
        if who == a2.owner {
            lemma_acct_at(accts2, accts.len() as int);
        } else {
            if has_acct(accts, who) {
                let j = acct_index(accts, who);
                assert(0 <= j < accts.len() && accts[j].owner == who);
                lemma_acct_at(accts, j);
                lemma_acct_at(accts2, j);
            } else {
                assert forall|j: int| 0 <= j < accts.len() implies accts[j].owner != who by {
                    assert(!(0 <= j < accts.len() && accts[j].owner == who));
                }
                lemma_no_acct(accts, who);
                assert forall|j: int| 0 <= j < accts2.len() implies accts2[j].owner != who by {
                    if j < accts.len() {
                        assert(accts[j].owner != who);
                    }
                }
                lemma_no_acct(accts2, who);
            }
        }
    }
    assert(bal_map(accts2) =~= bal_map(accts).insert(a2.owner, a2.balance));
}

/// The ledger: the owner singleton, the request slots, the user accounts,
/// and the append-only audit log. Each keyed store is held as a vector of
/// records keyed by a field of the record itself, so lookups need no
/// separate index table.
pub struct Ledger {
    state: Option<State>,
    requests: Vec<Request>,
    accounts: Vec<UserAccount>,
    events: Vec<Event>,
}

impl View for Ledger {
    type V = LedgerModel;

    closed spec fn view(&self) -> LedgerModel {
        LedgerModel {
            owner: match self.state {
                Some(st) => Some(st.owner),
                None => None,
            },
            requests: req_map(self.requests@),
            balances: bal_map(self.accounts@),
            events: self.events@,
        }
    }
}

impl Ledger {
    /// Well-formedness: request ids and account owners are unique keys; a
    /// stored slot is active exactly when its caller is non-zero, and an
    /// available slot carries no balance; stored accounts and the owner
    /// singleton never hold the zero identity.
    pub closed spec fn wf(self) -> bool {
        &&& unique_ids(self.requests@)
        &&& forall|i: int|
            0 <= i < self.requests@.len() ==> ((#[trigger] self.requests@[i]).is_active
                <==> !self.requests@[i].caller.is_zero())
        &&& forall|i: int|
            0 <= i < self.requests@.len() ==> (!(#[trigger] self.requests@[i]).is_active
                ==> self.requests@[i].balance == 0)
        &&& unique_owners(self.accounts@)
        &&& forall|i: int|
            0 <= i < self.accounts@.len() ==> !(#[trigger] self.accounts@[i]).owner.is_zero()
        &&& match self.state {
            Some(st) => !st.owner.is_zero(),
            None => true,
        }
    }

    /// A fresh ledger: not yet bootstrapped, every slot available, every
    /// balance zero, no events.
    pub fn new() -> (r: Ledger)
        ensures
            r.wf(),
            r@ == LedgerModel::init(),
    {
        let r = Ledger { state: None, requests: Vec::new(), accounts: Vec::new(), events: Vec::new() };
        proof {
            assert(r@ =~~= LedgerModel::init());
        }
        r
    }

    /// The index of the stored slot for `req_id`, if one exists.
    fn find_request(&self, req_id: u128) -> (r: Option<usize>)
        ensures
            match r {
                Some(i) => 0 <= i < self.requests@.len() && self.requests@[i as int].req_id
                    == req_id,
                None => !has_req(self.requests@, req_id),
            },
    {
        let mut i: usize = 0;
        while i < self.requests.len()
            invariant
                i <= self.requests@.len(),
                forall|j: int| 0 <= j < i ==> self.requests@[j].req_id != req_id,
            decreases self.requests@.len() - i,
        {
            if self.requests[i].req_id == req_id {
                return Some(i);
            }
            i = i + 1;
        }
        proof {
            if has_req(self.requests@, req_id) {
                let j = req_index(self.requests@, req_id);
                assert(self.requests@[j].req_id != req_id);
            }
        }
        None
    }

    /// The index of the stored account owned by `who`, if one exists.
    fn find_account(&self, who: Identity) -> (r: Option<usize>)
        ensures
            match r {
                Some(i) => 0 <= i < self.accounts@.len() && self.accounts@[i as int].owner == who,
                None => !has_acct(self.accounts@, who),
            },
    {
        let mut i: usize = 0;
        while i < self.accounts.len()
            invariant
                i <= self.accounts@.len(),
                forall|j: int| 0 <= j < i ==> self.accounts@[j].owner != who,
            decreases self.accounts@.len() - i,
        {
            if self.accounts[i].owner == who {
                return Some(i);
            }
            i = i + 1;
        }
        proof {
            if has_acct(self.accounts@, who) {
                let j = acct_index(self.accounts@, who);
                assert(self.accounts@[j].owner != who);
            }
        }
        None
    }

    /// Bootstrap: creates the global state if and only if it does not
    /// already exist and makes `caller` the initial owner, recording the
    /// transfer from the zero identity. Fails with `AlreadyInitialized`,
    /// changing nothing, if the state already exists.
    pub fn initialize(&mut self, caller: Identity) -> (r: Result<(), ErrorCode>)
        requires
            old(self).wf(),
            !caller.is_zero(),
        ensures
            final(self).wf(),
            final(self)@ == old(self)@.initialize_step(caller).0,
            r == old(self)@.initialize_step(caller).1,
    {
        if self.state.is_some() {
            return Err(ErrorCode::AlreadyInitialized);
        }
        self.state = Some(State { owner: caller, request_counter: 0 });
        self.events.push(Event::OwnershipChanged(OwnershipChanged {
            prev_owner: Identity::zero(),
            new_owner: caller,
        }));
        proof {
            assert(self@ =~~= old(self)@.initialize_step(caller).0);
        }
        Ok(())
    }

    /// Admission of a balance request: activates the slot at `req_id` with
    /// the submitting caller and the requested amount, recording the
    /// submission. The sole check is that the slot is available; the amount
    /// is not validated (zero is accepted) and any identity may submit.
    /// Fails with `RequestIdAlreadyUsed`, changing nothing, if the slot is
    /// currently active.
    pub fn submit(&mut self, caller: Identity, req_id: u128, amount: u64) -> (r: Result<
        (),
        ErrorCode,
    >)
        requires
            old(self).wf(),
            !caller.is_zero(),
        ensures
            final(self).wf(),
            final(self)@ == old(self)@.submit_step(caller, req_id, amount).0,
            r == old(self)@.submit_step(caller, req_id, amount).1,
    {
        let fresh = Request { req_id, caller, balance: amount, is_active: true };
        match self.find_request(req_id) {
            Some(i) => {
                proof {
                    lemma_slot_at(self.requests@, i as int);
                }
                if !(self.requests[i].caller == Identity::zero()) {
                    return Err(ErrorCode::RequestIdAlreadyUsed);
                }
                proof {
                    lemma_req_update(self.requests@, i as int, fresh);
                }
                self.requests.set(i, fresh);
            },
            None => {
                proof {
                    lemma_no_slot(self.requests@, req_id);
                    lemma_req_push(self.requests@, fresh);
                }
                self.requests.push(fresh);
            },
        }
        self.events.push(Event::Submission(Submission { req_id, caller, amount }));
        proof {
            assert(self@ =~~= old(self)@.submit_step(caller, req_id, amount).0);
        }
        Ok(())
    }

    /// Settlement of a request, as a single all-or-nothing unit: only the
    /// owner may confirm (`NotOwner`), and only an active slot can be
    /// confirmed (`IncorrectRequestId`). The submitter's account is located
    /// or lazily created and credited with the pending amount; a credit
    /// that would overflow the 64-bit balance aborts the whole operation
    /// with `BalanceOverflow`, leaving the request active. On success the
    /// slot is reset to available and the confirmation is recorded.
    pub fn confirm(&mut self, caller: Identity, req_id: u128) -> (r: Result<(), ErrorCode>)
        requires
            old(self).wf(),
        ensures
            final(self).wf(),
            final(self)@ == old(self)@.confirm_step(caller, req_id).0,
            r == old(self)@.confirm_step(caller, req_id).1,
    {
        let owner_ok = match &self.state {
            Some(st) => st.owner == caller,
            None => false,
        };
        if !owner_ok {
            return Err(ErrorCode::NotOwner);
        }
        let ridx = match self.find_request(req_id) {
            Some(i) => i,
            None => {
                proof {
                    lemma_no_slot(self.requests@, req_id);
                }
                return Err(ErrorCode::IncorrectRequestId);
            },
        };
        proof {
            lemma_slot_at(self.requests@, ridx as int);
        }
        if !self.requests[ridx].is_active {
            return Err(ErrorCode::IncorrectRequestId);
        }
        let user = self.requests[ridx].caller;
        let amount = self.requests[ridx].balance;
        match self.find_account(user) {
            Some(aidx) => {
                proof {
                    lemma_acct_at(self.accounts@, aidx as int);
                }
                let credited = match self.accounts[aidx].balance.checked_add(amount) {
                    Some(b) => b,
                    None => {
                        return Err(ErrorCode::BalanceOverflow);
                    },
                };
                proof {
                    lemma_bal_update(
                        self.accounts@,
                        aidx as int,
                        UserAccount { owner: user, balance: credited },
                    );
                }
                self.accounts.set(aidx, UserAccount { owner: user, balance: credited });
            },
            None => {
                // a lazily created account starts at zero, so the credit
                // itself cannot overflow
                proof {
                    lemma_no_acct(self.accounts@, user);
                    lemma_bal_push(self.accounts@, UserAccount { owner: user, balance: amount });
                }
                self.accounts.push(UserAccount { owner: user, balance: amount });
            },
        }
        let reset = Request { req_id, caller: Identity::zero(), balance: 0, is_active: false };
        proof {
            lemma_req_update(self.requests@, ridx as int, reset);
        }
        self.requests.set(ridx, reset);
        self.events.push(Event::Confirmation(Confirmation { req_id, user, amount }));
        proof {
            assert(self@ =~~= old(self)@.confirm_step(caller, req_id).0);
        }
        Ok(())
    }

    /// The settled balance of `who`: the stored account's balance, or zero
    /// if no account exists yet. A pure read with no access control.
    pub fn balance_of(&self, who: Identity) -> (r: u64)
        requires
            self.wf(),
        ensures
            r == self@.balances[who],
    {
        match self.find_account(who) {
            Some(i) => {
                proof {
                    lemma_acct_at(self.accounts@, i as int);
                }
                self.accounts[i].balance
            },
            None => {
                proof {
                    lemma_no_acct(self.accounts@, who);
                }
                0
            },
        }
    }

    /// Owner-only introspection: the full current contents of the slot at
    /// `req_id`, whether active or available, with no mutation. Fails with
    /// `NotOwner` for any other viewer.
    pub fn get_request(&self, viewer: Identity, req_id: u128) -> (r: Result<RequestData, ErrorCode>)
        requires
            self.wf(),
        ensures
            r == self@.get_request_step(viewer, req_id),
    {
        let owner_ok = match &self.state {
            Some(st) => st.owner == viewer,
            None => false,
        };
        if !owner_ok {
            return Err(ErrorCode::NotOwner);
        }
        match self.find_request(req_id) {
            Some(i) => {
                proof {
                    lemma_slot_at(self.requests@, i as int);
                }
                let stored = &self.requests[i];
                Ok(RequestData {
                    req_id,
                    caller: stored.caller,
                    balance: stored.balance,
                    is_active: stored.is_active,
                })
            },
            None => {
                proof {
                    lemma_no_slot(self.requests@, req_id);
                }
                Ok(RequestData {
                    req_id,
                    caller: Identity::zero(),
                    balance: 0,
                    is_active: false,
                })
            },
        }
    }

    /// Ownership transfer: owner-gated (`NotOwner`), and the zero identity
    /// is rejected as a target (`NewOwnerIsZero`) so the system is never
    /// left ownerless. On success the owner singleton is rewritten and the
    /// transfer is recorded. The transfer is single-step and irreversible
    /// except by the new owner repeating the operation.
    pub fn change_ownership(&mut self, caller: Identity, new_owner: Identity) -> (r: Result<
        (),
        ErrorCode,
    >)
        requires
            old(self).wf(),
        ensures
            final(self).wf(),
            final(self)@ == old(self)@.change_ownership_step(caller, new_owner).0,
            r == old(self)@.change_ownership_step(caller, new_owner).1,
    {
        let counter = match &self.state {
            Some(st) => {
                if !(st.owner == caller) {
                    return Err(ErrorCode::NotOwner);
                }
                st.request_counter
            },
            None => {
                return Err(ErrorCode::NotOwner);
            },
        };
        if new_owner == Identity::zero() {
            return Err(ErrorCode::NewOwnerIsZero);
        }
        self.state = Some(State { owner: new_owner, request_counter: counter });
        self.events.push(Event::OwnershipChanged(OwnershipChanged { prev_owner: caller, new_owner }));
        proof {
            assert(self@ =~~= old(self)@.change_ownership_step(caller, new_owner).0);
        }
        Ok(())
    }

    /// The current owner, if the ledger has been bootstrapped.
    pub fn owner(&self) -> (r: Option<Identity>)
        ensures
            r == self@.owner,
    {
        match &self.state {
            Some(st) => Some(st.owner),
            None => None,
        }
    }

    /// The append-only audit log, oldest event first.
    pub fn events(&self) -> (r: &Vec<Event>)
        ensures
            r@ == self@.events,
    {
        &self.events
    }
}

} // verus!
