//! Account identities.

use vstd::prelude::*;

verus! {

/// The identity of an account: its 32-byte public key.
#[derive(Clone, Copy, Debug)]
pub struct AccountId {
    pub key: [u8; 32],
}

impl AccountId {
    /// The identity with the given key.
    pub fn new(key: [u8; 32]) -> (id: AccountId)
        ensures
            id.key == key,
    {
        AccountId { key }
    }

    /// Whether the two identities name the same account.
    pub fn same_as(&self, other: &AccountId) -> (same: bool)
        ensures
            same == (*self == *other),
    {
        let mut i: usize = 0;
        while i < 32
            invariant
                i <= 32,
                forall|j: int| 0 <= j < i ==> self.key[j] == other.key[j],
            decreases 32 - i,
        {
            if self.key[i] != other.key[i] {
                return false;
            }
            i += 1;
        }
        proof {
            assert(self.key =~= other.key);
        }
        true
    }
}

impl PartialEq for AccountId {
    fn eq(&self, other: &AccountId) -> (same: bool) {
        self.same_as(other)
    }
}

impl vstd::std_specs::cmp::PartialEqSpecImpl for AccountId {
    open spec fn obeys_eq_spec() -> bool {
        true
    }

    open spec fn eq_spec(&self, other: &AccountId) -> bool {
        *self == *other
    }
}

} // verus!
