use vstd::prelude::*;

verus! {

/// An opaque, comparable caller identity.
///
/// The hosting environment authenticates callers cryptographically and hands
/// the core an identity value; the core only ever compares identities and
/// tests for the reserved zero identity. The zero (default) identity is
/// invalid as a caller or owner and marks a request slot as available.
#[derive(Clone, Copy, PartialEq, Eq, Structural, Debug)]
pub struct Identity {
    pub id: u128,
}

impl Identity {
    /// The reserved zero/default identity.
    pub open spec fn spec_zero() -> Identity {
        Identity { id: 0 }
    }

    /// Whether this is the reserved zero identity.
    pub open spec fn is_zero(self) -> bool {
        self == Identity::spec_zero()
    }

    /// The reserved zero/default identity, as a runtime value.
    pub fn zero() -> (r: Identity)
        ensures
            r == Identity::spec_zero(),
    {
        Identity { id: 0 }
    }

    /// An identity with the given underlying value.
    pub fn new(id: u128) -> (r: Identity)
        ensures
            r == (Identity { id }),
    {
        Identity { id }
    }
}

} // verus!
