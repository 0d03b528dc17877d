//! A handle on one ledger canister that speaks the extended token
//! standard.  The handle only remembers which canister it addresses;
//! the calls themselves are network I/O and live in the boundary layer.

use vstd::prelude::*;

verus! {

/// A client handle for one ledger canister.
pub struct CanisterExtClient {
    pub id: String,
}

impl CanisterExtClient {
    /// A handle addressing the given canister.
    pub fn new(canister_id: String) -> (c: Self)
        ensures
            c.id == canister_id,
    {
        CanisterExtClient { id: canister_id }
    }
}

} // verus!
