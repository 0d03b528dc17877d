//! Identities as the engine sees them.

use vstd::prelude::*;

verus! {

/// An authenticated caller identity.  The platform layer verifies the
/// caller and hands the engine an opaque numeric identity; the engine only
/// ever compares identities for equality and stores them.
#[derive(Clone, Copy, Debug, PartialEq, Eq, Hash, Structural)]
pub struct Principal {
    pub id: u64,
}

impl Principal {
    /// The distinguished anonymous identity.
    pub fn anonymous() -> (p: Principal)
        ensures
            p.id == 0,
    {
        Principal { id: 0 }
    }
}

} // verus!
