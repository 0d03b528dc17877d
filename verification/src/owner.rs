//! The administrator list gating the privileged operations.

use vstd::prelude::*;

use crate::error::DaoError;
use crate::types::Principal;

verus! {

/// The administrators of the organization.
pub struct OwnerService {
    pub owners: Vec<Principal>,
}

impl Default for OwnerService {
    /// No administrators yet.
    fn default() -> (s: Self)
        ensures
            s.owners@.len() == 0,
    {
        OwnerService { owners: Vec::new() }
    }
}

impl OwnerService {
    /// Grants administrator rights and returns the updated list.
    pub fn add_owner(&mut self, principal: Principal) -> (r: Vec<Principal>)
        ensures
            final(self).owners@ == old(self).owners@.push(principal),
            r@ == final(self).owners@,
    {
        self.owners.push(principal);
        self.get_owners()
    }

    /// A snapshot of the administrator list.
    pub fn get_owners(&self) -> (r: Vec<Principal>)
        ensures
            r@ == self.owners@,
    {
        let mut out: Vec<Principal> = Vec::new();
        let n = self.owners.len();
        for i in 0..n
            invariant
                n == self.owners@.len(),
                out@ == self.owners@.take(i as int),
        {
            out.push(self.owners[i]);
            proof {
                assert(self.owners@.take(i + 1) =~= self.owners@.take(i as int).push(
                    self.owners@[i as int],
                ));
            }
        }
        proof {
            assert(self.owners@.take(n as int) =~= self.owners@);
        }
        out
    }

    /// Succeeds exactly when the caller is an administrator.
    pub fn is_owner(&self, caller: Principal) -> (r: Result<(), DaoError>)
        ensures
            r is Ok <==> self.owners@.contains(caller),
            r is Err ==> r == Result::<(), DaoError>::Err(DaoError::Unauthorized),
    {
        let n = self.owners.len();
        for i in 0..n
            invariant
                n == self.owners@.len(),
                forall|k: int| 0 <= k < i ==> self.owners@[k] != caller,
        {
            if self.owners[i].id == caller.id {
                return Ok(());
            }
        }
        Err(DaoError::Unauthorized)
    }
}

} // verus!
