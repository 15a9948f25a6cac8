use tubbly::errors::ErrorCode;
use tubbly::identity::Identity;
use tubbly::ledger::Ledger;
use tubbly::records::{Confirmation, Event, OwnershipChanged, Submission};

fn ident(id: u128) -> Identity {
    Identity::new(id)
}

#[test]
fn end_to_end_submit_confirm() {
    let a = ident(1);
    let b = ident(2);
    let mut l = Ledger::new();
    assert_eq!(l.initialize(a), Ok(()));
    assert_eq!(l.submit(b, 7, 100), Ok(()));
    assert_eq!(l.confirm(a, 7), Ok(()));
    assert_eq!(l.balance_of(b), 100);
    let d = l.get_request(a, 7).unwrap();
    assert!(!d.is_active);
    assert_eq!(d.balance, 0);
    assert_eq!(d.caller, Identity::zero());
    assert_eq!(d.req_id, 7);
}

#[test]
fn ownership_transfer_redirects_authority() {
    let a = ident(1);
    let b = ident(2);
    let c = ident(3);
    let mut l = Ledger::new();
    assert_eq!(l.initialize(a), Ok(()));
    assert_eq!(l.change_ownership(a, c), Ok(()));
    assert_eq!(l.submit(b, 11, 40), Ok(()));
    assert_eq!(l.confirm(a, 11), Err(ErrorCode::NotOwner));
    assert_eq!(l.confirm(a, 999), Err(ErrorCode::NotOwner));
    assert_eq!(l.owner(), Some(c));
    assert_eq!(l.confirm(c, 11), Ok(()));
    assert_eq!(l.balance_of(b), 40);
}

#[test]
fn resubmit_same_id_rejected() {
    let a = ident(1);
    let b = ident(2);
    let c = ident(3);
    let mut l = Ledger::new();
    assert_eq!(l.initialize(a), Ok(()));
    assert_eq!(l.submit(b, 7, 100), Ok(()));
    assert_eq!(l.submit(c, 7, 50), Err(ErrorCode::RequestIdAlreadyUsed));
    assert_eq!(l.submit(b, 7, 100), Err(ErrorCode::RequestIdAlreadyUsed));
    let d = l.get_request(a, 7).unwrap();
    assert!(d.is_active);
    assert_eq!(d.caller, b);
    assert_eq!(d.balance, 100);
}

#[test]
fn confirm_by_non_owner_rejected() {
    let a = ident(1);
    let b = ident(2);
    let mut l = Ledger::new();
    assert_eq!(l.initialize(a), Ok(()));
    assert_eq!(l.submit(b, 5, 30), Ok(()));
    assert_eq!(l.confirm(b, 5), Err(ErrorCode::NotOwner));
    assert_eq!(l.balance_of(b), 0);
    let d = l.get_request(a, 5).unwrap();
    assert!(d.is_active);
    assert_eq!(d.balance, 30);
    assert_eq!(d.caller, b);
}

#[test]
fn confirm_credits_and_frees_slot() {
    let a = ident(1);
    let b = ident(2);
    let c = ident(3);
    let mut l = Ledger::new();
    assert_eq!(l.initialize(a), Ok(()));
    assert_eq!(l.submit(b, 9, 25), Ok(()));
    assert_eq!(l.confirm(a, 9), Ok(()));
    assert_eq!(l.balance_of(b), 25);
    // the slot is available again, so the same id may be reused
    assert_eq!(l.submit(c, 9, 17), Ok(()));
    assert_eq!(l.confirm(a, 9), Ok(()));
    assert_eq!(l.balance_of(c), 17);
    assert_eq!(l.balance_of(b), 25);
}

#[test]
fn confirm_twice_second_fails() {
    let a = ident(1);
    let b = ident(2);
    let mut l = Ledger::new();
    assert_eq!(l.initialize(a), Ok(()));
    assert_eq!(l.submit(b, 3, 8), Ok(()));
    assert_eq!(l.confirm(a, 3), Ok(()));
    assert_eq!(l.confirm(a, 3), Err(ErrorCode::IncorrectRequestId));
    // credited exactly once
    assert_eq!(l.balance_of(b), 8);
}

#[test]
fn overflow_leaves_request_active() {
    let a = ident(1);
    let b = ident(2);
    let mut l = Ledger::new();
    assert_eq!(l.initialize(a), Ok(()));
    assert_eq!(l.submit(b, 1, u64::MAX), Ok(()));
    assert_eq!(l.confirm(a, 1), Ok(()));
    assert_eq!(l.balance_of(b), u64::MAX);
    assert_eq!(l.submit(b, 2, 1), Ok(()));
    assert_eq!(l.confirm(a, 2), Err(ErrorCode::BalanceOverflow));
    // no partial credit: balance unchanged, request still active
    assert_eq!(l.balance_of(b), u64::MAX);
    let d = l.get_request(a, 2).unwrap();
    assert!(d.is_active);
    assert_eq!(d.balance, 1);
    assert_eq!(d.caller, b);
}

#[test]
fn change_ownership_to_zero_rejected() {
    let a = ident(1);
    let mut l = Ledger::new();
    assert_eq!(l.initialize(a), Ok(()));
    assert_eq!(l.change_ownership(a, Identity::zero()), Err(ErrorCode::NewOwnerIsZero));
    assert_eq!(l.owner(), Some(a));
}

#[test]
fn initialize_twice_rejected() {
    let a = ident(1);
    let b = ident(2);
    let mut l = Ledger::new();
    assert_eq!(l.initialize(a), Ok(()));
    assert_eq!(l.initialize(b), Err(ErrorCode::AlreadyInitialized));
    assert_eq!(l.owner(), Some(a));
}

#[test]
fn operations_before_bootstrap_are_owner_gated() {
    let a = ident(1);
    let mut l = Ledger::new();
    assert_eq!(l.owner(), None);
    assert_eq!(l.confirm(a, 1), Err(ErrorCode::NotOwner));
    assert_eq!(l.get_request(a, 1), Err(ErrorCode::NotOwner));
    assert_eq!(l.change_ownership(a, ident(2)), Err(ErrorCode::NotOwner));
}

#[test]
fn balance_of_unknown_identity_is_zero() {
    let l = Ledger::new();
    assert_eq!(l.balance_of(ident(42)), 0);
}

#[test]
fn submit_zero_amount_accepted() {
    let a = ident(1);
    let b = ident(2);
    let mut l = Ledger::new();
    assert_eq!(l.initialize(a), Ok(()));
    assert_eq!(l.submit(b, 4, 0), Ok(()));
    assert_eq!(l.confirm(a, 4), Ok(()));
    assert_eq!(l.balance_of(b), 0);
    // the account exists now and later credits accumulate on it
    assert_eq!(l.submit(b, 4, 6), Ok(()));
    assert_eq!(l.confirm(a, 4), Ok(()));
    assert_eq!(l.balance_of(b), 6);
}

#[test]
fn confirm_unknown_id_rejected() {
    let a = ident(1);
    let mut l = Ledger::new();
    assert_eq!(l.initialize(a), Ok(()));
    assert_eq!(l.confirm(a, 77), Err(ErrorCode::IncorrectRequestId));
}

#[test]
fn get_request_is_owner_only() {
    let a = ident(1);
    let b = ident(2);
    let mut l = Ledger::new();
    assert_eq!(l.initialize(a), Ok(()));
    assert_eq!(l.submit(b, 6, 12), Ok(()));
    assert_eq!(l.get_request(b, 6), Err(ErrorCode::NotOwner));
}

#[test]
fn get_request_of_untouched_slot_reads_available() {
    let a = ident(1);
    let mut l = Ledger::new();
    assert_eq!(l.initialize(a), Ok(()));
    let d = l.get_request(a, 123).unwrap();
    assert_eq!(d.req_id, 123);
    assert!(!d.is_active);
    assert_eq!(d.balance, 0);
    assert_eq!(d.caller, Identity::zero());
}

#[test]
fn events_recorded_exactly_once_per_success() {
    let a = ident(1);
    let b = ident(2);
    let c = ident(3);
    let mut l = Ledger::new();
    assert_eq!(l.initialize(a), Ok(()));
    assert_eq!(l.submit(b, 7, 100), Ok(()));
    // failures append nothing
    assert_eq!(l.submit(c, 7, 1), Err(ErrorCode::RequestIdAlreadyUsed));
    assert_eq!(l.confirm(b, 7), Err(ErrorCode::NotOwner));
    assert_eq!(l.confirm(a, 7), Ok(()));
    assert_eq!(l.change_ownership(a, c), Ok(()));
    let events = l.events();
    assert_eq!(events.len(), 4);
    assert_eq!(
        events[0],
        Event::OwnershipChanged(OwnershipChanged { prev_owner: Identity::zero(), new_owner: a })
    );
    assert_eq!(events[1], Event::Submission(Submission { req_id: 7, caller: b, amount: 100 }));
    assert_eq!(events[2], Event::Confirmation(Confirmation { req_id: 7, user: b, amount: 100 }));
    assert_eq!(
        events[3],
        Event::OwnershipChanged(OwnershipChanged { prev_owner: a, new_owner: c })
    );
}

#[test]
fn distinct_ids_are_independent() {
    let a = ident(1);
    let b = ident(2);
    let c = ident(3);
    let mut l = Ledger::new();
    assert_eq!(l.initialize(a), Ok(()));
    assert_eq!(l.submit(b, 1, 10), Ok(()));
    assert_eq!(l.submit(c, 2, 20), Ok(()));
    assert_eq!(l.confirm(a, 2), Ok(()));
    assert_eq!(l.balance_of(c), 20);
    assert_eq!(l.balance_of(b), 0);
    let d = l.get_request(a, 1).unwrap();
    assert!(d.is_active);
    assert_eq!(d.balance, 10);
}
