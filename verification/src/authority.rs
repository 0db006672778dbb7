//! The ledger authority: who may initiate an operation.

use vstd::prelude::*;
use crate::identity::AccountId;
use crate::post::Side;

verus! {

/// An operation that debits an account.
#[derive(Clone, Copy, Debug)]
pub enum Operation {
    /// Publishing a post, for which `payer` deposits the creation fee.
    CreatePost { payer: AccountId, fee_amount: u64 },
    /// Staking on a post, for which `payer` deposits the stake.
    Stake { payer: AccountId, post_id: u64, amount: u64, side: Side },
}

impl Operation {
    /// The account whose funds the operation moves.
    pub open spec fn spec_debited(&self) -> AccountId {
        match *self {
            Operation::CreatePost { payer, .. } => payer,
            Operation::Stake { payer, .. } => payer,
        }
    }

    /// The account whose funds the operation moves.
    #[verifier::when_used_as_spec(spec_debited)]
    pub fn debited(&self) -> (account: AccountId)
        ensures
            account == self.spec_debited(),
    {
        match self {
            Operation::CreatePost { payer, .. } => *payer,
            Operation::Stake { payer, .. } => *payer,
        }
    }
}

/// An actor may initiate exactly the operations that debit its own account:
/// nobody stakes or publishes on another's behalf.
pub open spec fn authorized(actor: AccountId, operation: Operation) -> bool {
    actor == operation.spec_debited()
}

/// Decides whether `actor` may initiate `operation`.
pub fn authorize(actor: &AccountId, operation: &Operation) -> (allowed: bool)
    ensures
        allowed == authorized(*actor, *operation),
{
    let account = operation.debited();
    actor.same_as(&account)
}

} // verus!
