//! The ledger as a state machine: its abstract state, the steps that change
//! it, and the invariant that every step keeps.

use vstd::prelude::*;
use crate::authority::{authorized, Operation};
use crate::error::LedgerError;
use crate::identity::AccountId;
use crate::post::{
    lemma_side_total_push, side_count, side_total, Post, PostStatus, Side, StakeRecord,
};
use crate::vault::held_for;

verus! {

/// Everything the ledger keeps: the post table, the stake log and the value
/// held for each post.
pub struct LedgerState {
    /// The fee that creating a post costs.
    pub fixed_fee: u64,
    /// The posts, each at the index that is its identifier.
    pub posts: Seq<Post>,
    /// The stake records in the order in which they were committed.
    pub log: Seq<StakeRecord>,
    /// The value held for each post.
    pub held: Map<u64, u128>,
}

/// One step of the ledger.
pub enum Step {
    /// `creator` published the post `created`.
    CreatePost { creator: AccountId, created: Post },
    /// A stake was committed as `record`.
    Stake { record: StakeRecord },
    /// The post was closed.
    ClosePost { post_id: u64 },
    /// An operation was refused.
    Refused,
}

impl LedgerState {
    /// The ledger before anything has happened.
    pub open spec fn initial(fixed_fee: u64) -> LedgerState {
        LedgerState { fixed_fee, posts: Seq::empty(), log: Seq::empty(), held: Map::empty() }
    }

    /// Whether a post has the identifier.
    pub open spec fn knows(self, post_id: u64) -> bool {
        post_id < self.posts.len()
    }

    /// The post with the identifier.
    pub open spec fn post_at(self, post_id: u64) -> Post
        recommends
            self.knows(post_id),
    {
        self.posts[post_id as int]
    }

    /// The value held for a post; nothing for an unknown one.
    pub open spec fn held_for(self, post_id: u64) -> u128 {
        held_for(self.held, post_id)
    }

    /// Every post sits at the index that is its identifier and has paid the
    /// fixed fee.
    pub open spec fn posts_in_order(self) -> bool {
        forall|post_id: u64|
            self.knows(post_id) ==> {
                &&& (#[trigger] self.post_at(post_id)).id == post_id
                &&& self.post_at(post_id).fee_paid == self.fixed_fee
            }
    }

    /// Every record carries its place in the log as its sequence marker,
    /// stakes a positive amount, and stakes it on a known post.
    pub open spec fn log_in_order(self) -> bool {
        forall|k: int|
            0 <= k < self.log.len() ==> {
                &&& (#[trigger] self.log[k]).sequence == k
                &&& self.log[k].amount > 0
                &&& self.knows(self.log[k].post_id)
            }
    }

    /// Each accumulator of each post equals the sum of the amounts that the
    /// log's records stake on that side of the post.
    pub open spec fn totals_match_log(self) -> bool {
        forall|post_id: u64, side: Side|
            self.knows(post_id) ==> #[trigger] side_total(self.log, post_id, side) == self.post_at(
                post_id,
            ).spec_total(side)
    }

    /// The value held for each post is its fee plus all stakes on it, and
    /// nothing is held for a post that does not exist.
    pub open spec fn value_conserved(self) -> bool {
        forall|post_id: u64|
            #![trigger self.held_for(post_id)]
            self.held_for(post_id) == self.owed_to(post_id)
    }

    /// What a post has taken in: its fee and every stake on either side.
    /// Nothing for an unknown post.
    pub open spec fn owed_to(self, post_id: u64) -> int {
        if self.knows(post_id) {
            self.post_at(post_id).fee_paid + self.post_at(post_id).total_agree + self.post_at(
                post_id,
            ).total_disagree
        } else {
            0
        }
    }

    /// What holds of the ledger after every step.
    pub open spec fn inv(self) -> bool {
        &&& self.posts_in_order()
        &&& self.log_in_order()
        &&& self.totals_match_log()
        &&& self.value_conserved()
    }
}

/// Why the ledger refuses to create a post, if it does. `covered` says
/// whether the creator's account can be debited by the fee.
pub open spec fn create_post_refusal(
    state: LedgerState,
    actor: AccountId,
    creator: AccountId,
    fee_amount: u64,
    covered: bool,
) -> Option<LedgerError> {
    if !authorized(actor, Operation::CreatePost { payer: creator, fee_amount }) {
        Some(LedgerError::AuthorizationFailure)
    } else if fee_amount != state.fixed_fee {
        Some(LedgerError::InvalidFee)
    } else if !covered {
        Some(LedgerError::InsufficientFunds)
    } else {
        None
    }
}

/// Why the ledger refuses a stake, if it does. `covered` says whether the
/// staker's account can be debited by the amount.
pub open spec fn stake_refusal(
    state: LedgerState,
    actor: AccountId,
    staker: AccountId,
    post_id: u64,
    amount: u64,
    side: Side,
    covered: bool,
) -> Option<LedgerError> {
    if !authorized(actor, Operation::Stake { payer: staker, post_id, amount, side }) {
        Some(LedgerError::AuthorizationFailure)
    } else if amount == 0 {
        Some(LedgerError::ZeroOrNegativeAmount)
    } else if !state.knows(post_id) {
        Some(LedgerError::PostNotFound)
    } else if !state.post_at(post_id).spec_is_open() {
        Some(LedgerError::PostClosed)
    } else if !covered {
        Some(LedgerError::InsufficientFunds)
    } else {
        None
    }
}

/// Why the ledger refuses to close a post, if it does.
pub open spec fn close_post_refusal(state: LedgerState, post_id: u64) -> Option<LedgerError> {
    if !state.knows(post_id) {
        Some(LedgerError::PostNotFound)
    } else if !state.post_at(post_id).spec_is_open() {
        Some(LedgerError::PostClosed)
    } else {
        None
    }
}

/// `after` is `before` with one more post: `created`, open, with nothing
/// staked on it, and with exactly the fixed fee held for it.
pub open spec fn post_created(
    before: LedgerState,
    after: LedgerState,
    creator: AccountId,
    created: Post,
) -> bool {
    &&& before.posts.len() <= u64::MAX
    &&& created == Post {
        id: before.posts.len() as u64,
        creator,
        fee_paid: before.fixed_fee,
        status: PostStatus::Open,
        total_agree: 0,
        total_disagree: 0,
    }
    &&& after == LedgerState {
        posts: before.posts.push(created),
        held: before.held.insert(created.id, before.fixed_fee as u128),
        ..before
    }
}

/// `after` is `before` with `record` appended to the log, its amount added
/// to the accumulator of its side of its post and to the value held for that
/// post, and nothing else changed.
pub open spec fn stake_applied(
    before: LedgerState,
    after: LedgerState,
    record: StakeRecord,
) -> bool {
    let post_id = record.post_id;
    &&& before.knows(post_id)
    &&& before.post_at(post_id).spec_is_open()
    &&& record.amount > 0
    &&& record.sequence == before.log.len()
    &&& before.post_at(post_id).spec_total(record.side) + record.amount <= u128::MAX
    &&& before.held_for(post_id) + record.amount <= u128::MAX
    &&& after == LedgerState {
        posts: before.posts.update(
            post_id as int,
            before.post_at(post_id).credited(record.side, record.amount),
        ),
        log: before.log.push(record),
        held: before.held.insert(post_id, (before.held_for(post_id) + record.amount) as u128),
        ..before
    }
}

/// `after` is `before` with the post, open until now, closed.
pub open spec fn post_closed(before: LedgerState, after: LedgerState, post_id: u64) -> bool {
    &&& before.knows(post_id)
    &&& before.post_at(post_id).spec_is_open()
    &&& after == LedgerState {
        posts: before.posts.update(post_id as int, before.post_at(post_id).closed()),
        ..before
    }
}

/// Whether `step` leads from `before` to `after`.
pub open spec fn steps_to(before: LedgerState, after: LedgerState, step: Step) -> bool {
    match step {
        Step::CreatePost { creator, created } => post_created(before, after, creator, created),
        Step::Stake { record } => stake_applied(before, after, record),
        Step::ClosePost { post_id } => post_closed(before, after, post_id),
        Step::Refused => after == before,
    }
}

/// Whether `states` is a run of the ledger, from whatever state, in which
/// each state follows from the one before by the step of the same index.
pub open spec fn is_run(states: Seq<LedgerState>, steps: Seq<Step>) -> bool {
    &&& states.len() == steps.len() + 1
    &&& forall|i: int|
        0 <= i < steps.len() ==> steps_to(states[i], #[trigger] states[i + 1], steps[i])
}

/// Whether `states` is a run of the ledger from its initial state.
pub open spec fn is_history(states: Seq<LedgerState>, steps: Seq<Step>) -> bool {
    &&& is_run(states, steps)
    &&& states[0] == LedgerState::initial(states[0].fixed_fee)
}

/// The invariant holds of the initial ledger.
pub proof fn lemma_initial_inv(fixed_fee: u64)
    ensures
        LedgerState::initial(fixed_fee).inv(),
{
}

/// Creating a post keeps the invariant.
pub proof fn lemma_post_created_inv(
    before: LedgerState,
    after: LedgerState,
    creator: AccountId,
    created: Post,
)
    requires
        before.inv(),
        post_created(before, after, creator, created),
    ensures
        after.inv(),
{
    assert forall|post_id: u64| after.knows(post_id) implies {
        &&& (#[trigger] after.post_at(post_id)).id == post_id
        &&& after.post_at(post_id).fee_paid == after.fixed_fee
    } by {
        if post_id != created.id {
            assert(before.post_at(post_id).id == post_id);
        }
    }
    assert forall|k: int| 0 <= k < after.log.len() implies {
        &&& (#[trigger] after.log[k]).sequence == k
        &&& after.log[k].amount > 0
        &&& after.knows(after.log[k].post_id)
    } by {
        assert(before.knows(before.log[k].post_id));
    }
    assert forall|post_id: u64, side: Side| after.knows(post_id) implies #[trigger] side_total(
        after.log,
        post_id,
        side,
    ) == after.post_at(post_id).spec_total(side) by {
        if post_id == created.id {
            lemma_no_stakes_on_unknown_post(before, post_id, side);
        } else {
            assert(before.knows(post_id));
        }
    }
    assert forall|post_id: u64|
        #![trigger after.held_for(post_id)]
        after.held_for(post_id) == after.owed_to(post_id) by {
        assert(before.held_for(post_id) == before.owed_to(post_id));
    }
}

/// The log stakes nothing on a post that does not exist.
pub proof fn lemma_no_stakes_on_unknown_post(state: LedgerState, post_id: u64, side: Side)
    requires
        state.log_in_order(),
        !state.knows(post_id),
    ensures
        side_total(state.log, post_id, side) == 0,
        side_count(state.log, post_id, side) == 0,
{
    lemma_no_matching_records(state.log, post_id, side);
}

/// A log without a record for a side of a post sums and counts to nothing
/// for it.
proof fn lemma_no_matching_records(log: Seq<StakeRecord>, post_id: u64, side: Side)
    requires
        forall|k: int| 0 <= k < log.len() ==> (#[trigger] log[k]).post_id != post_id,
    ensures
        side_total(log, post_id, side) == 0,
        side_count(log, post_id, side) == 0,
    decreases log.len(),
{
    if log.len() > 0 {
        lemma_no_matching_records(log.drop_last(), post_id, side);
    }
}

/// Committing a stake keeps the invariant.
pub proof fn lemma_stake_applied_inv(before: LedgerState, after: LedgerState, record: StakeRecord)
    requires
        before.inv(),
        stake_applied(before, after, record),
    ensures
        after.inv(),
{
    let staked_on = record.post_id;
    assert forall|post_id: u64| after.knows(post_id) implies {
        &&& (#[trigger] after.post_at(post_id)).id == post_id
        &&& after.post_at(post_id).fee_paid == after.fixed_fee
    } by {
        assert(before.post_at(post_id).id == post_id);
    }
    assert forall|post_id: u64, side: Side| after.knows(post_id) implies #[trigger] side_total(
        after.log,
        post_id,
        side,
    ) == after.post_at(post_id).spec_total(side) by {
        lemma_side_total_push(before.log, record, post_id, side);
        assert(side_total(before.log, post_id, side) == before.post_at(post_id).spec_total(side));
    }
    assert forall|post_id: u64|
        #![trigger after.held_for(post_id)]
        after.held_for(post_id) == after.owed_to(post_id) by {
        assert(before.held_for(post_id) == before.owed_to(post_id));
    }
}

/// Closing a post keeps the invariant.
pub proof fn lemma_post_closed_inv(before: LedgerState, after: LedgerState, post_id: u64)
    requires
        before.inv(),
        post_closed(before, after, post_id),
    ensures
        after.inv(),
{
    assert forall|id: u64| after.knows(id) implies {
        &&& (#[trigger] after.post_at(id)).id == id
        &&& after.post_at(id).fee_paid == after.fixed_fee
    } by {
        assert(before.post_at(id).id == id);
    }
    assert forall|id: u64, side: Side| after.knows(id) implies #[trigger] side_total(
        after.log,
        id,
        side,
    ) == after.post_at(id).spec_total(side) by {
        assert(side_total(before.log, id, side) == before.post_at(id).spec_total(side));
    }
    assert forall|id: u64|
        #![trigger after.held_for(id)]
        after.held_for(id) == after.owed_to(id) by {
        assert(before.held_for(id) == before.owed_to(id));
    }
}

/// Every step keeps the invariant.
pub proof fn lemma_step_inv(before: LedgerState, after: LedgerState, step: Step)
    requires
        before.inv(),
        steps_to(before, after, step),
    ensures
        after.inv(),
{
    match step {
        Step::CreatePost { creator, created } => lemma_post_created_inv(
            before,
            after,
            creator,
            created,
        ),
        Step::Stake { record } => lemma_stake_applied_inv(before, after, record),
        Step::ClosePost { post_id } => lemma_post_closed_inv(before, after, post_id),
        Step::Refused => {},
    }
}

} // verus!
