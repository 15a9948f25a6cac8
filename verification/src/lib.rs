//! An authorization-mediated balance ledger.
//!
//! Callers submit balance-increase requests under a caller-chosen 128-bit
//! request id; a single privileged owner reviews and confirms each request,
//! at which point the requested amount is credited to a per-caller account.
//! The ledger keeps three keyed stores (the owner singleton, request slots
//! keyed by request id, and user accounts keyed by identity), and every
//! operation is an atomic check-then-update: a failed operation leaves all
//! state unchanged and emits no audit event.

pub mod errors;
pub mod identity;
pub mod laws;
pub mod ledger;
pub mod model;
pub mod records;
