//! Posts, stake records, and the sums that tie them together.

use vstd::prelude::*;
use crate::identity::AccountId;

verus! {

/// The side of a post on which a stake is placed.
#[derive(Clone, Copy, Debug, PartialEq, Eq, Structural)]
pub enum Side {
    Agree,
    Disagree,
}

/// Whether a post still accepts stakes.
#[derive(Clone, Copy, Debug, PartialEq, Eq, Structural)]
pub enum PostStatus {
    Open,
    Closed,
}

/// A published claim.
#[derive(Clone, Copy, Debug)]
pub struct Post {
    /// Assigned at creation and never reused.
    pub id: u64,
    /// The account that paid the creation fee.
    pub creator: AccountId,
    /// The value deposited at creation.
    pub fee_paid: u64,
    pub status: PostStatus,
    /// The sum of all stakes that agree with the post.
    pub total_agree: u128,
    /// The sum of all stakes that disagree with the post.
    pub total_disagree: u128,
}

/// One committed stake. Records are never changed or removed.
#[derive(Clone, Copy, Debug)]
pub struct StakeRecord {
    /// The post staked on.
    pub post_id: u64,
    /// The account that deposited the stake.
    pub staker: AccountId,
    pub side: Side,
    /// Strictly positive.
    pub amount: u64,
    /// The record's place in insertion order.
    pub sequence: u64,
}

/// Names a stake record: the post it belongs to and its sequence marker.
#[derive(Clone, Copy, Debug, PartialEq, Eq, Structural)]
pub struct RecordId {
    pub post_id: u64,
    pub sequence: u64,
}

impl Side {
    /// The side that a yes-or-no answer stands for.
    pub fn from_agree(agree: bool) -> (side: Side)
        ensures
            side == (if agree { Side::Agree } else { Side::Disagree }),
    {
        if agree {
            Side::Agree
        } else {
            Side::Disagree
        }
    }
}

impl Post {
    /// The post's accumulator for one side.
    pub open spec fn spec_total(&self, side: Side) -> u128 {
        match side {
            Side::Agree => self.total_agree,
            Side::Disagree => self.total_disagree,
        }
    }

    /// The post's accumulator for one side.
    #[verifier::when_used_as_spec(spec_total)]
    pub fn total(&self, side: Side) -> (total: u128)
        ensures
            total == self.spec_total(side),
    {
        match side {
            Side::Agree => self.total_agree,
            Side::Disagree => self.total_disagree,
        }
    }

    /// Whether the post still accepts stakes.
    pub open spec fn spec_is_open(&self) -> bool {
        self.status == PostStatus::Open
    }

    /// Whether the post still accepts stakes.
    #[verifier::when_used_as_spec(spec_is_open)]
    pub fn is_open(&self) -> (open: bool)
        ensures
            open == self.spec_is_open(),
    {
        match self.status {
            PostStatus::Open => true,
            PostStatus::Closed => false,
        }
    }

    /// This post with `amount` more staked on `side`, everything else as it was.
    pub open spec fn credited(self, side: Side, amount: u64) -> Post {
        match side {
            Side::Agree => Post { total_agree: (self.total_agree + amount) as u128, ..self },
            Side::Disagree => Post {
                total_disagree: (self.total_disagree + amount) as u128,
                ..self
            },
        }
    }

    /// This post, closed.
    pub open spec fn closed(self) -> Post {
        Post { status: PostStatus::Closed, ..self }
    }
}

impl StakeRecord {
    /// Whether the record is a stake on the given side of the given post.
    pub open spec fn counts_for(self, post_id: u64, side: Side) -> bool {
        self.post_id == post_id && self.side == side
    }

    /// The name under which the record is filed.
    pub fn record_id(&self) -> (id: RecordId)
        ensures
            id == (RecordId { post_id: self.post_id, sequence: self.sequence }),
    {
        RecordId { post_id: self.post_id, sequence: self.sequence }
    }
}

/// The sum of the amounts that the log's records stake on one side of a post.
pub open spec fn side_total(log: Seq<StakeRecord>, post_id: u64, side: Side) -> nat
    decreases log.len(),
{
    if log.len() == 0 {
        0
    } else if log.last().counts_for(post_id, side) {
        side_total(log.drop_last(), post_id, side) + log.last().amount as nat
    } else {
        side_total(log.drop_last(), post_id, side)
    }
}

/// The number of the log's records that stake on one side of a post.
pub open spec fn side_count(log: Seq<StakeRecord>, post_id: u64, side: Side) -> nat
    decreases log.len(),
{
    if log.len() == 0 {
        0
    } else if log.last().counts_for(post_id, side) {
        side_count(log.drop_last(), post_id, side) + 1
    } else {
        side_count(log.drop_last(), post_id, side)
    }
}

/// Appending a record adds its amount to the sum of the side it stakes on
/// and leaves every other sum alone.
pub proof fn lemma_side_total_push(
    log: Seq<StakeRecord>,
    record: StakeRecord,
    post_id: u64,
    side: Side,
)
    ensures
        side_total(log.push(record), post_id, side) == side_total(log, post_id, side) + (
        if record.counts_for(post_id, side) {
            record.amount as nat
        } else {
            0
        }),
{
    assert(log.push(record).drop_last() =~= log);
    assert(log.push(record).last() == record);
}

/// Appending a record counts once for the side it stakes on and not at all
/// for any other.
pub proof fn lemma_side_count_push(
    log: Seq<StakeRecord>,
    record: StakeRecord,
    post_id: u64,
    side: Side,
)
    ensures
        side_count(log.push(record), post_id, side) == side_count(log, post_id, side) + (
        if record.counts_for(post_id, side) {
            1nat
        } else {
            0
        }),
{
    assert(log.push(record).drop_last() =~= log);
    assert(log.push(record).last() == record);
}

/// Both sides of a post together hold at most the largest amount times the
/// number of records.
pub proof fn lemma_side_totals_bounded(log: Seq<StakeRecord>, post_id: u64)
    ensures
        side_total(log, post_id, Side::Agree) + side_total(log, post_id, Side::Disagree)
            <= log.len() * u64::MAX,
    decreases log.len(),
{
    if log.len() > 0 {
        lemma_side_totals_bounded(log.drop_last(), post_id);
        assert(log.len() * u64::MAX == log.drop_last().len() * u64::MAX + u64::MAX)
            by (nonlinear_arith)
            requires
                log.len() == log.drop_last().len() + 1,
        ;
    }
}

} // verus!
