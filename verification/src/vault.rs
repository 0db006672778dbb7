//! The vault: the value held for each post.

use std::collections::HashMap;
use vstd::prelude::*;
use crate::error::TransferFailure;
use crate::identity::AccountId;
use crate::transfer::{debited, same_balances, TransferPrimitive};

verus! {

broadcast use vstd::std_specs::hash::group_hash_axioms;

/// What a map of held amounts holds for a post: its entry, or nothing where
/// it has none.
pub open spec fn held_for(held: Map<u64, u128>, post_id: u64) -> u128 {
    if held.contains_key(post_id) {
        held[post_id]
    } else {
        0
    }
}

/// Holds, post by post, the value deposited for it.
#[derive(Debug)]
pub struct Vault {
    held: HashMap<u64, u128>,
}

impl View for Vault {
    type V = Map<u64, u128>;

    closed spec fn view(&self) -> Map<u64, u128> {
        self.held@
    }
}

impl Vault {
    /// What the vault holds for a post.
    pub open spec fn balance(&self, post_id: u64) -> u128 {
        held_for(self@, post_id)
    }

    /// A vault that holds nothing.
    pub fn new() -> (vault: Vault)
        ensures
            vault@ == Map::<u64, u128>::empty(),
    {
        Vault { held: HashMap::new() }
    }

    /// What the vault holds for a post.
    pub fn balance_of(&self, post_id: u64) -> (held: u128)
        ensures
            held == self.balance(post_id),
    {
        match self.held.get(&post_id) {
            Some(amount) => *amount,
            None => 0,
        }
    }

    /// Moves `amount` out of `source` and into what is held for the post.
    /// Fails, moving nothing, exactly when the bank does not carry out the
    /// debit or the held amount would no longer fit in 128 bits.
    pub fn deposit<B: TransferPrimitive>(
        &mut self,
        bank: &mut B,
        post_id: u64,
        amount: u64,
        source: &AccountId,
    ) -> (outcome: Result<(), TransferFailure>)
        ensures
            outcome is Ok <==> old(self).balance(post_id) + amount <= u128::MAX && old(bank).covers(
                *source,
                amount,
            ),
            outcome is Ok ==> final(self)@ == old(self)@.insert(
                post_id,
                (old(self).balance(post_id) + amount) as u128,
            ),
            outcome is Ok ==> debited(*old(bank), *final(bank), *source, amount),
            outcome is Err ==> final(self)@ == old(self)@,
            outcome is Err ==> same_balances(*old(bank), *final(bank)),
    {
        let held = self.balance_of(post_id);
        if held > u128::MAX - (amount as u128) {
            return Err(TransferFailure {  });
        }
        match bank.debit(source, amount) {
            Ok(()) => {
                self.held.insert(post_id, held + (amount as u128));
                Ok(())
            },
            Err(failure) => Err(failure),
        }
    }
}

} // verus!
