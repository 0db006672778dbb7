//! What holds of the ledger over whole runs, proved from the steps' own
//! definitions.

use vstd::prelude::*;
use crate::model::{
    is_history, is_run, lemma_initial_inv, lemma_step_inv, steps_to, LedgerState, Step,
};
use crate::post::{lemma_side_count_push, side_count, side_total, PostStatus, Side};

verus! {

/// What a step stakes on one side of a post: the amount of its record if it
/// is such a stake, and nothing otherwise.
pub open spec fn staked_by(step: Step, post_id: u64, side: Side) -> nat {
    match step {
        Step::Stake { record } => if record.counts_for(post_id, side) {
            record.amount as nat
        } else {
            0
        },
        _ => 0,
    }
}

/// Whether a step is a stake on one side of a post.
pub open spec fn stakes_on(step: Step, post_id: u64, side: Side) -> bool {
    match step {
        Step::Stake { record } => record.counts_for(post_id, side),
        _ => false,
    }
}

/// How many of the steps are stakes on one side of a post.
pub open spec fn stakes_among(steps: Seq<Step>, post_id: u64, side: Side) -> nat
    decreases steps.len(),
{
    if steps.len() == 0 {
        0
    } else if stakes_on(steps.last(), post_id, side) {
        stakes_among(steps.drop_last(), post_id, side) + 1
    } else {
        stakes_among(steps.drop_last(), post_id, side)
    }
}

/// A run that starts in a state with the invariant has it in every state.
pub proof fn lemma_run_inv(states: Seq<LedgerState>, steps: Seq<Step>, i: int)
    requires
        is_run(states, steps),
        states[0].inv(),
        0 <= i < states.len(),
    ensures
        states[i].inv(),
    decreases i,
{
    if i > 0 {
        lemma_run_inv(states, steps, i - 1);
        assert(steps_to(states[i - 1], states[i - 1 + 1], steps[i - 1]));
        lemma_step_inv(states[i - 1], states[i], steps[i - 1]);
    }
}

/// After any sequence of operations on a ledger, the value held for each
/// post is exactly its fee plus everything staked on either side of it.
pub proof fn law_value_conserved(
    states: Seq<LedgerState>,
    steps: Seq<Step>,
    i: int,
    post_id: u64,
)
    requires
        is_history(states, steps),
        0 <= i < states.len(),
        states[i].knows(post_id),
    ensures
        states[i].held_for(post_id) == states[i].post_at(post_id).fee_paid + states[i].post_at(
            post_id,
        ).total_agree + states[i].post_at(post_id).total_disagree,
{
    lemma_initial_inv(states[0].fixed_fee);
    lemma_run_inv(states, steps, i);
    assert(states[i].held_for(post_id) == states[i].owed_to(post_id));
}

/// After any sequence of operations on a ledger, each accumulator of each
/// post is exactly the sum of the amounts of the stake records for that post
/// and side.
pub proof fn law_totals_match_records(
    states: Seq<LedgerState>,
    steps: Seq<Step>,
    i: int,
    post_id: u64,
)
    requires
        is_history(states, steps),
        0 <= i < states.len(),
        states[i].knows(post_id),
    ensures
        states[i].post_at(post_id).total_agree == side_total(states[i].log, post_id, Side::Agree),
        states[i].post_at(post_id).total_disagree == side_total(
            states[i].log,
            post_id,
            Side::Disagree,
        ),
{
    lemma_initial_inv(states[0].fixed_fee);
    lemma_run_inv(states, steps, i);
    assert(side_total(states[i].log, post_id, Side::Agree) == states[i].post_at(
        post_id,
    ).spec_total(Side::Agree));
    assert(side_total(states[i].log, post_id, Side::Disagree) == states[i].post_at(
        post_id,
    ).spec_total(Side::Disagree));
}

/// `later` holds everything that `earlier` held: the same fee, the same
/// records in the same places, and the same posts, each with its identifier,
/// creator and fee unchanged, still closed if it was closed, and with no
/// accumulator smaller than before.
pub open spec fn grown_from(earlier: LedgerState, later: LedgerState) -> bool {
    &&& later.fixed_fee == earlier.fixed_fee
    &&& earlier.log.is_prefix_of(later.log)
    &&& forall|post_id: u64|
        earlier.knows(post_id) ==> {
            &&& later.knows(post_id)
            &&& (#[trigger] later.post_at(post_id)).id == earlier.post_at(post_id).id
            &&& later.post_at(post_id).creator == earlier.post_at(post_id).creator
            &&& later.post_at(post_id).fee_paid == earlier.post_at(post_id).fee_paid
            &&& later.post_at(post_id).total_agree >= earlier.post_at(post_id).total_agree
            &&& later.post_at(post_id).total_disagree >= earlier.post_at(post_id).total_disagree
            &&& earlier.post_at(post_id).status == PostStatus::Closed ==> later.post_at(
                post_id,
            ).status == PostStatus::Closed
        }
}

/// No step takes anything back.
pub proof fn lemma_step_grows(before: LedgerState, after: LedgerState, step: Step)
    requires
        steps_to(before, after, step),
    ensures
        grown_from(before, after),
{
}

/// Records are never changed or removed, a post keeps its identifier, its
/// creator and its fee, and a closed post is never open again: each state of
/// a run holds everything that every earlier state held.
pub proof fn law_nothing_is_taken_back(
    states: Seq<LedgerState>,
    steps: Seq<Step>,
    i: int,
    j: int,
)
    requires
        is_run(states, steps),
        0 <= i <= j < states.len(),
    ensures
        grown_from(states[i], states[j]),
    decreases j - i,
{
    if i < j {
        law_nothing_is_taken_back(states, steps, i, j - 1);
        assert(steps_to(states[j - 1], states[j - 1 + 1], steps[j - 1]));
        lemma_step_grows(states[j - 1], states[j], steps[j - 1]);
        assert forall|post_id: u64| states[i].knows(post_id) implies {
            &&& states[j].knows(post_id)
            &&& (#[trigger] states[j].post_at(post_id)).id == states[i].post_at(post_id).id
            &&& states[j].post_at(post_id).creator == states[i].post_at(post_id).creator
            &&& states[j].post_at(post_id).fee_paid == states[i].post_at(post_id).fee_paid
            &&& states[j].post_at(post_id).total_agree >= states[i].post_at(post_id).total_agree
            &&& states[j].post_at(post_id).total_disagree >= states[i].post_at(
                post_id,
            ).total_disagree
            &&& states[i].post_at(post_id).status == PostStatus::Closed ==> states[j].post_at(
                post_id,
            ).status == PostStatus::Closed
        } by {
            assert(states[j - 1].post_at(post_id).id == states[i].post_at(post_id).id);
        }
    }
}

/// A step adds to an accumulator of a known post exactly what it stakes on
/// that side of the post, and to the number of records for that post and
/// side exactly one if it is such a stake.
pub proof fn lemma_step_effect(
    before: LedgerState,
    after: LedgerState,
    step: Step,
    post_id: u64,
    side: Side,
)
    requires
        before.knows(post_id),
        steps_to(before, after, step),
    ensures
        after.knows(post_id),
        after.post_at(post_id).spec_total(side) == before.post_at(post_id).spec_total(side)
            + staked_by(step, post_id, side),
        side_count(after.log, post_id, side) == side_count(before.log, post_id, side) + (
        if stakes_on(step, post_id, side) {
            1nat
        } else {
            0
        }),
{
    match step {
        Step::Stake { record } => {
            lemma_side_count_push(before.log, record, post_id, side);
        },
        _ => {},
    }
}

/// However stakes of one amount on one side of a post are interleaved with
/// each other and with other operations, none is lost: over any run, the
/// accumulator for that side grows by the amount times the number of those
/// stakes, and the log gains exactly one record for each.
pub proof fn law_no_lost_stakes(
    states: Seq<LedgerState>,
    steps: Seq<Step>,
    post_id: u64,
    side: Side,
    amount: u64,
)
    requires
        is_run(states, steps),
        states[0].knows(post_id),
        forall|i: int|
            0 <= i < steps.len() && stakes_on(#[trigger] steps[i], post_id, side) ==> staked_by(
                steps[i],
                post_id,
                side,
            ) == amount,
    ensures
        states.last().knows(post_id),
        states.last().post_at(post_id).spec_total(side) == states[0].post_at(post_id).spec_total(
            side,
        ) + stakes_among(steps, post_id, side) * amount,
        side_count(states.last().log, post_id, side) == side_count(states[0].log, post_id, side)
            + stakes_among(steps, post_id, side),
    decreases steps.len(),
{
    if steps.len() > 0 {
        let earlier_states = states.drop_last();
        let earlier_steps = steps.drop_last();
        let n = earlier_steps.len() as int;
        assert forall|i: int| 0 <= i < earlier_steps.len() implies steps_to(
            earlier_states[i],
            #[trigger] earlier_states[i + 1],
            earlier_steps[i],
        ) by {
            assert(steps_to(states[i], states[i + 1], steps[i]));
        }
        assert forall|i: int|
            0 <= i < earlier_steps.len() && stakes_on(
                #[trigger] earlier_steps[i],
                post_id,
                side,
            ) implies staked_by(earlier_steps[i], post_id, side) == amount by {
            assert(earlier_steps[i] == steps[i]);
        }
        law_no_lost_stakes(earlier_states, earlier_steps, post_id, side, amount);
        assert(earlier_states.last() == states[n]);
        assert(steps_to(states[n], states[n + 1], steps[n]));
        lemma_step_effect(states[n], states[n + 1], steps[n], post_id, side);
        let before = stakes_among(earlier_steps, post_id, side);
        assert((before + 1) * amount == before * amount + amount) by (nonlinear_arith);
        assert(steps.last() == steps[n]);
        assert(staked_by(steps[n], post_id, side) == (if stakes_on(steps[n], post_id, side) {
            amount as nat
        } else {
            0
        }));
    } else {
        assert(stakes_among(steps, post_id, side) * amount == 0) by (nonlinear_arith)
            requires
                stakes_among(steps, post_id, side) == 0,
        ;
    }
}

} // verus!
