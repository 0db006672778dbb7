//! The two operations that the ledger offers to the outside: publishing a
//! post and staking on one.

use vstd::prelude::*;
use crate::error::{ErrorKind, LedgerError};
use crate::identity::AccountId;
use crate::ledger::Ledger;
use crate::model::{create_post_refusal, post_created, stake_applied, stake_refusal};
use crate::post::{Post, PostStatus, RecordId, Side, StakeRecord};
use crate::transfer::{debited, same_balances, TransferPrimitive};

verus! {

/// The accounts of a request to publish a post.
#[derive(Clone, Copy, Debug)]
pub struct InitializePost {
    /// The account that signed the request.
    pub signer: AccountId,
    /// The account that pays the creation fee.
    pub payer: AccountId,
}

/// The accounts of a request to stake on a post, and the post.
#[derive(Clone, Copy, Debug)]
pub struct Stake {
    /// The account that signed the request.
    pub signer: AccountId,
    /// The account that pays the stake.
    pub payer: AccountId,
    /// The post to stake on.
    pub post_id: u64,
}

/// Publishes a post paid for by `ctx.payer` and returns its identifier.
///
/// The request is refused, and nothing changes, when the signer is not the
/// payer, when `fee_amount` is not the ledger's fixed fee, or when the bank
/// does not debit the fee, in this order of precedence. Otherwise the fee
/// moves into the vault and the post exists from then on: open, with the fee
/// paid and nothing staked on either side.
pub fn initialize_post<B: TransferPrimitive>(
    ledger: &mut Ledger,
    bank: &mut B,
    ctx: &InitializePost,
    fee_amount: u64,
) -> (result: Result<u64, LedgerError>)
    requires
        old(ledger).wf(),
    ensures
        final(ledger).wf(),
        match create_post_refusal(
            old(ledger)@,
            ctx.signer,
            ctx.payer,
            fee_amount,
            old(bank).covers(ctx.payer, fee_amount),
        ) {
            Some(error) => {
                &&& result == Err::<u64, LedgerError>(error)
                &&& final(ledger)@ == old(ledger)@
                &&& same_balances(*old(bank), *final(bank))
            },
            None => {
                &&& result == Ok::<u64, LedgerError>(old(ledger)@.posts.len() as u64)
                &&& post_created(
                    old(ledger)@,
                    final(ledger)@,
                    ctx.payer,
                    Post {
                        id: old(ledger)@.posts.len() as u64,
                        creator: ctx.payer,
                        fee_paid: fee_amount,
                        status: PostStatus::Open,
                        total_agree: 0,
                        total_disagree: 0,
                    },
                )
                &&& debited(*old(bank), *final(bank), ctx.payer, fee_amount)
            },
        },
        ctx.signer == ctx.payer && fee_amount != old(ledger)@.fixed_fee ==> {
            &&& result == Err::<u64, LedgerError>(LedgerError::InvalidFee)
            &&& final(ledger)@ == old(ledger)@
        },
{
    match ledger.create_post(bank, &ctx.signer, &ctx.payer, fee_amount) {
        Ok(post) => Ok(post.id),
        Err(error) => Err(error),
    }
}

/// Stakes `amount` from `ctx.payer` on the post `ctx.post_id`, on the agreeing
/// side if `agree` and on the disagreeing side if not, and returns the name
/// of the new stake record.
///
/// The request is refused, and nothing changes, when the signer is not the
/// payer, when `amount` is zero, when the post does not exist, when it is
/// closed, or when the bank does not debit the amount, in this order of
/// precedence. Otherwise the amount moves into the vault, the record is
/// appended to the log, and the post's accumulator for the side grows by
/// exactly `amount`.
pub fn stake<B: TransferPrimitive>(
    ledger: &mut Ledger,
    bank: &mut B,
    ctx: &Stake,
    amount: u64,
    agree: bool,
) -> (result: Result<RecordId, LedgerError>)
    requires
        old(ledger).wf(),
    ensures
        final(ledger).wf(),
        match stake_refusal(
            old(ledger)@,
            ctx.signer,
            ctx.payer,
            ctx.post_id,
            amount,
            if agree { Side::Agree } else { Side::Disagree },
            old(bank).covers(ctx.payer, amount),
        ) {
            Some(error) => {
                &&& result == Err::<RecordId, LedgerError>(error)
                &&& final(ledger)@ == old(ledger)@
                &&& same_balances(*old(bank), *final(bank))
            },
            None => {
                &&& result == Ok::<RecordId, LedgerError>(
                    RecordId { post_id: ctx.post_id, sequence: old(ledger)@.log.len() as u64 },
                )
                &&& stake_applied(
                    old(ledger)@,
                    final(ledger)@,
                    StakeRecord {
                        post_id: ctx.post_id,
                        staker: ctx.payer,
                        side: if agree { Side::Agree } else { Side::Disagree },
                        amount,
                        sequence: old(ledger)@.log.len() as u64,
                    },
                )
                &&& debited(*old(bank), *final(bank), ctx.payer, amount)
            },
        },
        ctx.signer == ctx.payer && amount == 0 ==> {
            &&& result == Err::<RecordId, LedgerError>(LedgerError::ZeroOrNegativeAmount)
            &&& result->Err_0.spec_kind() == ErrorKind::ValidationError
            &&& final(ledger)@ == old(ledger)@
        },
        ctx.signer == ctx.payer && amount > 0 && !old(ledger)@.knows(ctx.post_id) ==> {
            &&& result == Err::<RecordId, LedgerError>(LedgerError::PostNotFound)
            &&& final(ledger)@ == old(ledger)@
        },
        ctx.signer == ctx.payer && amount > 0 && old(ledger)@.knows(ctx.post_id) && !old(
            ledger,
        )@.post_at(ctx.post_id).spec_is_open() ==> {
            &&& result == Err::<RecordId, LedgerError>(LedgerError::PostClosed)
            &&& final(ledger)@ == old(ledger)@
        },
{
    let side = Side::from_agree(agree);
    match ledger.stake(bank, &ctx.signer, &ctx.payer, ctx.post_id, amount, side) {
        Ok(record) => Ok(record.record_id()),
        Err(error) => Err(error),
    }
}

} // verus!
