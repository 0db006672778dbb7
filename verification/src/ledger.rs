//! The ledger itself: the post registry and the stake log over one vault.

use vstd::prelude::*;
use crate::authority::{authorize, Operation};
use crate::error::LedgerError;
use crate::identity::AccountId;
use crate::model::{
    close_post_refusal, create_post_refusal, lemma_initial_inv, lemma_post_closed_inv,
    lemma_post_created_inv, lemma_stake_applied_inv, post_closed, post_created, stake_applied,
    stake_refusal, LedgerState,
};
use crate::post::{
    lemma_side_count_push, lemma_side_total_push, lemma_side_totals_bounded, side_count,
    side_total, Post, PostStatus, Side, StakeRecord,
};
use crate::transfer::{debited, same_balances, TransferPrimitive};
use crate::vault::Vault;

verus! {

/// The post table, the stake log and the vault, changed only together.
#[derive(Debug)]
pub struct Ledger {
    fixed_fee: u64,
    posts: Vec<Post>,
    log: Vec<StakeRecord>,
    vault: Vault,
}

impl View for Ledger {
    type V = LedgerState;

    closed spec fn view(&self) -> LedgerState {
        LedgerState {
            fixed_fee: self.fixed_fee,
            posts: self.posts@,
            log: self.log@,
            held: self.vault@,
        }
    }
}

/// With at most `count` records of at most `u64::MAX` each behind it, a sum
/// that has taken in a fee as well still has room for one more amount.
proof fn lemma_room_for_one_more(count: nat)
    requires
        count <= u64::MAX,
    ensures
        u64::MAX + count * u64::MAX + u64::MAX <= u128::MAX,
{
    assert(count * u64::MAX <= u64::MAX * u64::MAX) by (nonlinear_arith)
        requires
            count <= u64::MAX,
    ;
}

impl Ledger {
    /// Whether the ledger's tables agree with each other: the model's
    /// invariant holds of what it keeps.
    pub open spec fn wf(&self) -> bool {
        self@.inv()
    }

    /// An empty ledger on which creating a post costs `fixed_fee`.
    pub fn new(fixed_fee: u64) -> (ledger: Ledger)
        ensures
            ledger@ == LedgerState::initial(fixed_fee),
            ledger.wf(),
    {
        let ledger = Ledger { fixed_fee, posts: Vec::new(), log: Vec::new(), vault: Vault::new() };
        proof {
            assert(ledger@.posts =~= Seq::empty());
            assert(ledger@.log =~= Seq::empty());
            lemma_initial_inv(fixed_fee);
        }
        ledger
    }

    /// The fee that creating a post costs.
    pub fn fixed_fee(&self) -> (fee: u64)
        ensures
            fee == self@.fixed_fee,
    {
        self.fixed_fee
    }

    /// The number of posts created so far.
    pub fn post_count(&self) -> (count: usize)
        ensures
            count == self@.posts.len(),
    {
        self.posts.len()
    }

    /// The number of stakes committed so far.
    pub fn record_count(&self) -> (count: usize)
        ensures
            count == self@.log.len(),
    {
        self.log.len()
    }

    /// The post with the identifier, if there is one.
    pub fn post(&self, post_id: u64) -> (found: Option<Post>)
        ensures
            found == (if self@.knows(post_id) {
                Some(self@.post_at(post_id))
            } else {
                None
            }),
    {
        if post_id < self.posts.len() as u64 {
            Some(self.posts[post_id as usize])
        } else {
            None
        }
    }

    /// The stake record with the sequence marker, if there is one.
    pub fn record(&self, sequence: u64) -> (found: Option<StakeRecord>)
        ensures
            found == (if sequence < self@.log.len() {
                Some(self@.log[sequence as int])
            } else {
                None
            }),
    {
        if sequence < self.log.len() as u64 {
            Some(self.log[sequence as usize])
        } else {
            None
        }
    }

    /// The value held for the post: its fee plus every stake placed on it,
    /// and nothing if there is no such post.
    pub fn balance_of(&self, post_id: u64) -> (held: u128)
        requires
            self.wf(),
        ensures
            held == self@.held_for(post_id),
            held == self@.owed_to(post_id),
    {
        proof {
            assert(self@.held_for(post_id) == self@.owed_to(post_id));
        }
        self.vault.balance_of(post_id)
    }

    /// Recomputes from the log what is staked on one side of a post. On a
    /// known post this is what the post's accumulator says.
    pub fn audit_total(&self, post_id: u64, side: Side) -> (total: u128)
        ensures
            total == side_total(self@.log, post_id, side),
            self.wf() && self@.knows(post_id) ==> total == self@.post_at(post_id).spec_total(side),
    {
        let mut total: u128 = 0;
        let mut i: usize = 0;
        while i < self.log.len()
            invariant
                i <= self.log@.len(),
                total == side_total(self.log@.subrange(0, i as int), post_id, side),
            decreases self.log@.len() - i,
        {
            let record = self.log[i];
            proof {
                let seen = self.log@.subrange(0, i as int);
                assert(self.log@.subrange(0, i + 1) =~= seen.push(record));
                lemma_side_total_push(seen, record, post_id, side);
                lemma_side_totals_bounded(seen.push(record), post_id);
                lemma_room_for_one_more(seen.push(record).len());
            }
            if record.post_id == post_id && record.side == side {
                total = total + record.amount as u128;
            }
            i += 1;
        }
        proof {
            assert(self.log@.subrange(0, i as int) =~= self.log@);
        }
        total
    }

    /// Counts in the log the stakes on one side of a post.
    pub fn audit_count(&self, post_id: u64, side: Side) -> (count: usize)
        ensures
            count == side_count(self@.log, post_id, side),
    {
        let mut count: usize = 0;
        let mut i: usize = 0;
        while i < self.log.len()
            invariant
                i <= self.log@.len(),
                count <= i,
                count == side_count(self.log@.subrange(0, i as int), post_id, side),
            decreases self.log@.len() - i,
        {
            let record = self.log[i];
            proof {
                let seen = self.log@.subrange(0, i as int);
                assert(self.log@.subrange(0, i + 1) =~= seen.push(record));
                lemma_side_count_push(seen, record, post_id, side);
            }
            if record.post_id == post_id && record.side == side {
                count = count + 1;
            }
            i += 1;
        }
        proof {
            assert(self.log@.subrange(0, i as int) =~= self.log@);
        }
        count
    }

    /// Publishes a post for `creator`, on the initiative of `actor`.
    ///
    /// Refused, in this order of precedence: with `AuthorizationFailure` when
    /// `actor` is not `creator`; with `InvalidFee` when `fee_amount` is not
    /// the fixed fee; with `InsufficientFunds` when the bank does not debit
    /// the fee from `creator`. A refusal changes neither ledger nor bank.
    /// Otherwise the fee moves from `creator` into the vault and the new post
    /// is returned: open, with `fee_amount` paid and nothing staked.
    pub fn create_post<B: TransferPrimitive>(
        &mut self,
        bank: &mut B,
        actor: &AccountId,
        creator: &AccountId,
        fee_amount: u64,
    ) -> (result: Result<Post, LedgerError>)
        requires
            old(self).wf(),
        ensures
            final(self).wf(),
            match create_post_refusal(
                old(self)@,
                *actor,
                *creator,
                fee_amount,
                old(bank).covers(*creator, fee_amount),
            ) {
                Some(error) => {
                    &&& result == Err::<Post, LedgerError>(error)
                    &&& final(self)@ == old(self)@
                    &&& same_balances(*old(bank), *final(bank))
                },
                None => {
                    &&& result is Ok
                    &&& post_created(old(self)@, final(self)@, *creator, result->Ok_0)
                    &&& debited(*old(bank), *final(bank), *creator, fee_amount)
                },
            },
            result matches Ok(post) ==> post.fee_paid == fee_amount && post.total_agree == 0
                && post.total_disagree == 0,
    {
        let operation = Operation::CreatePost { payer: *creator, fee_amount };
        if !authorize(actor, &operation) {
            return Err(LedgerError::AuthorizationFailure);
        }
        if fee_amount != self.fixed_fee {
            return Err(LedgerError::InvalidFee);
        }
        let id = self.posts.len() as u64;
        proof {
            assert(self@.held_for(id) == self@.owed_to(id));
        }
        match self.vault.deposit(bank, id, fee_amount, creator) {
            Ok(()) => {},
            Err(_) => {
                return Err(LedgerError::InsufficientFunds);
            },
        }
        let post = Post {
            id,
            creator: *creator,
            fee_paid: fee_amount,
            status: PostStatus::Open,
            total_agree: 0,
            total_disagree: 0,
        };
        self.posts.push(post);
        proof {
            lemma_post_created_inv(old(self)@, self@, *creator, post);
        }
        Ok(post)
    }

    /// Stakes `amount` for `staker` on one side of a post, on the initiative
    /// of `actor`.
    ///
    /// Refused, in this order of precedence: with `AuthorizationFailure` when
    /// `actor` is not `staker`; with `ZeroOrNegativeAmount` when `amount` is
    /// zero; with `PostNotFound` when no post has the identifier; with
    /// `PostClosed` when the post is closed; with `InsufficientFunds` when
    /// the bank does not debit the amount from `staker`. A refusal changes
    /// neither ledger nor bank. Otherwise the amount moves from `staker` into
    /// the vault, the stake is appended to the log under the next sequence
    /// marker, the post's accumulator for `side` grows by exactly `amount`,
    /// and the new record is returned.
    pub fn stake<B: TransferPrimitive>(
        &mut self,
        bank: &mut B,
        actor: &AccountId,
        staker: &AccountId,
        post_id: u64,
        amount: u64,
        side: Side,
    ) -> (result: Result<StakeRecord, LedgerError>)
        requires
            old(self).wf(),
        ensures
            final(self).wf(),
            match stake_refusal(
                old(self)@,
                *actor,
                *staker,
                post_id,
                amount,
                side,
                old(bank).covers(*staker, amount),
            ) {
                Some(error) => {
                    &&& result == Err::<StakeRecord, LedgerError>(error)
                    &&& final(self)@ == old(self)@
                    &&& same_balances(*old(bank), *final(bank))
                },
                None => {
                    &&& result is Ok
                    &&& result->Ok_0 == (StakeRecord {
                        post_id,
                        staker: *staker,
                        side,
                        amount,
                        sequence: old(self)@.log.len() as u64,
                    })
                    &&& stake_applied(old(self)@, final(self)@, result->Ok_0)
                    &&& debited(*old(bank), *final(bank), *staker, amount)
                },
            },
    {
        let operation = Operation::Stake { payer: *staker, post_id, amount, side };
        if !authorize(actor, &operation) {
            return Err(LedgerError::AuthorizationFailure);
        }
        if amount == 0 {
            return Err(LedgerError::ZeroOrNegativeAmount);
        }
        if post_id >= self.posts.len() as u64 {
            return Err(LedgerError::PostNotFound);
        }
        let index = post_id as usize;
        let post = self.posts[index];
        if !post.is_open() {
            return Err(LedgerError::PostClosed);
        }
        let sequence = self.log.len() as u64;
        proof {
            lemma_side_totals_bounded(self@.log, post_id);
            lemma_room_for_one_more(self@.log.len());
            assert(side_total(self@.log, post_id, Side::Agree) == post.total_agree);
            assert(side_total(self@.log, post_id, Side::Disagree) == post.total_disagree);
            assert(self@.held_for(post_id) == self@.owed_to(post_id));
        }
        match self.vault.deposit(bank, post_id, amount, staker) {
            Ok(()) => {},
            Err(_) => {
                return Err(LedgerError::InsufficientFunds);
            },
        }
        let record = StakeRecord { post_id, staker: *staker, side, amount, sequence };
        self.log.push(record);
        let credited = match side {
            Side::Agree => Post { total_agree: post.total_agree + amount as u128, ..post },
            Side::Disagree => Post { total_disagree: post.total_disagree + amount as u128, ..post },
        };
        self.posts[index] = credited;
        proof {
            assert(credited == post.credited(side, amount));
            lemma_stake_applied_inv(old(self)@, self@, record);
        }
        Ok(record)
    }

    /// Closes a post, after which no stake on it is accepted.
    ///
    /// Refused with `PostNotFound` when no post has the identifier and with
    /// `PostClosed` when the post is closed already; a refusal changes
    /// nothing. Otherwise only the post's status changes.
    pub fn close_post(&mut self, post_id: u64) -> (result: Result<(), LedgerError>)
        requires
            old(self).wf(),
        ensures
            final(self).wf(),
            match close_post_refusal(old(self)@, post_id) {
                Some(error) => result == Err::<(), LedgerError>(error) && final(self)@ == old(
                    self,
                )@,
                None => result is Ok && post_closed(old(self)@, final(self)@, post_id),
            },
    {
        if post_id >= self.posts.len() as u64 {
            return Err(LedgerError::PostNotFound);
        }
        let index = post_id as usize;
        let post = self.posts[index];
        if !post.is_open() {
            return Err(LedgerError::PostClosed);
        }
        self.posts[index] = Post { status: PostStatus::Closed, ..post };
        proof {
            lemma_post_closed_inv(old(self)@, self@, post_id);
        }
        Ok(())
    }
}

} // verus!
