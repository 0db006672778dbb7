use verisphere::{
    initialize_post, stake, AccountId, ErrorKind, InitializePost, Ledger, LedgerError,
    MemoryBank, PostStatus, RecordId, Side, Stake,
};

fn account(tag: u8) -> AccountId {
    AccountId::new([tag; 32])
}

fn funded(accounts: &[(u8, u64)]) -> MemoryBank {
    let mut bank = MemoryBank::new();
    for (tag, amount) in accounts {
        assert!(bank.credit(&account(*tag), *amount).is_ok());
    }
    bank
}

fn publish(
    ledger: &mut Ledger,
    bank: &mut MemoryBank,
    tag: u8,
    fee: u64,
) -> Result<u64, LedgerError> {
    let ctx = InitializePost { signer: account(tag), payer: account(tag) };
    initialize_post(ledger, bank, &ctx, fee)
}

fn place(
    ledger: &mut Ledger,
    bank: &mut MemoryBank,
    tag: u8,
    post_id: u64,
    amount: u64,
    agree: bool,
) -> Result<RecordId, LedgerError> {
    let ctx = Stake { signer: account(tag), payer: account(tag), post_id };
    stake(ledger, bank, &ctx, amount, agree)
}

#[test]
fn new_ledger_is_empty() {
    let ledger = Ledger::new(100);
    assert_eq!(ledger.fixed_fee(), 100);
    assert_eq!(ledger.post_count(), 0);
    assert_eq!(ledger.record_count(), 0);
    assert!(ledger.post(0).is_none());
    assert!(ledger.record(0).is_none());
    assert_eq!(ledger.balance_of(0), 0);
}

#[test]
fn created_post_has_fee_and_empty_totals() {
    let mut ledger = Ledger::new(100);
    let mut bank = funded(&[(1, 500)]);
    let post = ledger.create_post(&mut bank, &account(1), &account(1), 100).unwrap();
    assert_eq!(post.id, 0);
    assert!(post.creator == account(1));
    assert_eq!(post.fee_paid, 100);
    assert_eq!(post.status, PostStatus::Open);
    assert_eq!(post.total_agree, 0);
    assert_eq!(post.total_disagree, 0);
    assert_eq!(ledger.post_count(), 1);
    assert_eq!(ledger.balance_of(0), 100);
    assert_eq!(bank.balance_of(&account(1)), 400);
    let stored = ledger.post(0).unwrap();
    assert_eq!(stored.fee_paid, 100);
    assert!(stored.is_open());
}

#[test]
fn post_ids_are_fresh_and_ordered() {
    let mut ledger = Ledger::new(7);
    let mut bank = funded(&[(1, 100), (2, 100)]);
    assert_eq!(publish(&mut ledger, &mut bank, 1, 7), Ok(0));
    assert_eq!(publish(&mut ledger, &mut bank, 2, 7), Ok(1));
    assert_eq!(publish(&mut ledger, &mut bank, 1, 7), Ok(2));
    assert_eq!(ledger.post_count(), 3);
    assert!(ledger.post(1).unwrap().creator == account(2));
    assert!(ledger.post(3).is_none());
    assert_eq!(bank.balance_of(&account(1)), 86);
    assert_eq!(bank.balance_of(&account(2)), 93);
}

#[test]
fn wrong_fee_is_refused_and_creates_nothing() {
    let mut ledger = Ledger::new(100);
    let mut bank = funded(&[(1, 500)]);
    assert_eq!(publish(&mut ledger, &mut bank, 1, 99), Err(LedgerError::InvalidFee));
    assert_eq!(publish(&mut ledger, &mut bank, 1, 101), Err(LedgerError::InvalidFee));
    assert_eq!(publish(&mut ledger, &mut bank, 1, 0), Err(LedgerError::InvalidFee));
    assert_eq!(ledger.post_count(), 0);
    assert_eq!(ledger.balance_of(0), 0);
    assert_eq!(bank.balance_of(&account(1)), 500);
}

#[test]
fn creator_without_funds_is_refused() {
    let mut ledger = Ledger::new(100);
    let mut bank = funded(&[(1, 99)]);
    assert_eq!(publish(&mut ledger, &mut bank, 1, 100), Err(LedgerError::InsufficientFunds));
    assert_eq!(publish(&mut ledger, &mut bank, 2, 100), Err(LedgerError::InsufficientFunds));
    assert_eq!(ledger.post_count(), 0);
    assert_eq!(bank.balance_of(&account(1)), 99);
}

#[test]
fn publishing_for_another_account_is_refused() {
    let mut ledger = Ledger::new(100);
    let mut bank = funded(&[(1, 500), (2, 500)]);
    let ctx = InitializePost { signer: account(1), payer: account(2) };
    assert_eq!(
        initialize_post(&mut ledger, &mut bank, &ctx, 100),
        Err(LedgerError::AuthorizationFailure)
    );
    assert_eq!(ledger.post_count(), 0);
    assert_eq!(bank.balance_of(&account(2)), 500);
}

#[test]
fn authorization_is_checked_before_the_fee() {
    let mut ledger = Ledger::new(100);
    let mut bank = funded(&[(2, 500)]);
    let ctx = InitializePost { signer: account(1), payer: account(2) };
    assert_eq!(
        initialize_post(&mut ledger, &mut bank, &ctx, 5),
        Err(LedgerError::AuthorizationFailure)
    );
}

#[test]
fn free_posts_need_no_funds() {
    let mut ledger = Ledger::new(0);
    let mut bank = MemoryBank::new();
    assert_eq!(publish(&mut ledger, &mut bank, 9, 0), Ok(0));
    assert_eq!(ledger.balance_of(0), 0);
    assert_eq!(ledger.post(0).unwrap().fee_paid, 0);
}

#[test]
fn stakes_on_both_sides_add_up() {
    let mut ledger = Ledger::new(100);
    let mut bank = funded(&[(1, 1000)]);
    let post = publish(&mut ledger, &mut bank, 1, 100).unwrap();
    assert_eq!(
        place(&mut ledger, &mut bank, 1, post, 50, true),
        Ok(RecordId { post_id: post, sequence: 0 })
    );
    assert_eq!(
        place(&mut ledger, &mut bank, 1, post, 30, false),
        Ok(RecordId { post_id: post, sequence: 1 })
    );
    let stored = ledger.post(post).unwrap();
    assert_eq!(stored.total_agree, 50);
    assert_eq!(stored.total_disagree, 30);
    assert_eq!(stored.total(Side::Agree), 50);
    assert_eq!(stored.total(Side::Disagree), 30);
    assert_eq!(ledger.balance_of(post), 180);
    assert_eq!(bank.balance_of(&account(1)), 820);
}

#[test]
fn stake_returns_the_committed_record() {
    let mut ledger = Ledger::new(10);
    let mut bank = funded(&[(1, 100), (2, 100)]);
    let post = publish(&mut ledger, &mut bank, 1, 10).unwrap();
    let record = ledger
        .stake(&mut bank, &account(2), &account(2), post, 25, Side::Disagree)
        .unwrap();
    assert_eq!(record.post_id, post);
    assert!(record.staker == account(2));
    assert_eq!(record.side, Side::Disagree);
    assert_eq!(record.amount, 25);
    assert_eq!(record.sequence, 0);
    assert_eq!(record.record_id(), RecordId { post_id: post, sequence: 0 });
    let stored = ledger.record(0).unwrap();
    assert_eq!(stored.amount, 25);
    assert_eq!(stored.side, Side::Disagree);
    assert!(ledger.record(1).is_none());
    assert_eq!(ledger.record_count(), 1);
}

#[test]
fn zero_stake_is_a_validation_error() {
    let mut ledger = Ledger::new(100);
    let mut bank = funded(&[(1, 1000)]);
    let post = publish(&mut ledger, &mut bank, 1, 100).unwrap();
    let refused = place(&mut ledger, &mut bank, 1, post, 0, true);
    assert_eq!(refused, Err(LedgerError::ZeroOrNegativeAmount));
    assert_eq!(refused.unwrap_err().kind(), ErrorKind::ValidationError);
    assert_eq!(ledger.record_count(), 0);
    let stored = ledger.post(post).unwrap();
    assert_eq!(stored.total_agree, 0);
    assert_eq!(stored.total_disagree, 0);
    assert_eq!(ledger.balance_of(post), 100);
    assert_eq!(bank.balance_of(&account(1)), 900);
}

#[test]
fn zero_stake_on_unknown_post_is_a_validation_error() {
    let mut ledger = Ledger::new(100);
    let mut bank = funded(&[(1, 1000)]);
    assert_eq!(
        place(&mut ledger, &mut bank, 1, 42, 0, true),
        Err(LedgerError::ZeroOrNegativeAmount)
    );
}

#[test]
fn stake_on_unknown_post_is_refused() {
    let mut ledger = Ledger::new(100);
    let mut bank = funded(&[(1, 1000)]);
    assert_eq!(place(&mut ledger, &mut bank, 1, 0, 5, true), Err(LedgerError::PostNotFound));
    publish(&mut ledger, &mut bank, 1, 100).unwrap();
    assert_eq!(place(&mut ledger, &mut bank, 1, 1, 5, true), Err(LedgerError::PostNotFound));
    assert_eq!(
        place(&mut ledger, &mut bank, 1, u64::MAX, 5, true),
        Err(LedgerError::PostNotFound)
    );
    assert_eq!(ledger.record_count(), 0);
    assert_eq!(bank.balance_of(&account(1)), 900);
}

#[test]
fn stake_on_closed_post_is_refused() {
    let mut ledger = Ledger::new(100);
    let mut bank = funded(&[(1, 1000)]);
    let post = publish(&mut ledger, &mut bank, 1, 100).unwrap();
    place(&mut ledger, &mut bank, 1, post, 50, true).unwrap();
    assert_eq!(ledger.close_post(post), Ok(()));
    assert_eq!(ledger.post(post).unwrap().status, PostStatus::Closed);
    assert!(!ledger.post(post).unwrap().is_open());
    assert_eq!(place(&mut ledger, &mut bank, 1, post, 5, true), Err(LedgerError::PostClosed));
    assert_eq!(place(&mut ledger, &mut bank, 1, post, 5, false), Err(LedgerError::PostClosed));
    let stored = ledger.post(post).unwrap();
    assert_eq!(stored.total_agree, 50);
    assert_eq!(stored.total_disagree, 0);
    assert_eq!(ledger.balance_of(post), 150);
    assert_eq!(ledger.record_count(), 1);
    assert_eq!(bank.balance_of(&account(1)), 850);
}

#[test]
fn staker_without_funds_is_refused() {
    let mut ledger = Ledger::new(100);
    let mut bank = funded(&[(1, 100), (2, 49)]);
    let post = publish(&mut ledger, &mut bank, 1, 100).unwrap();
    assert_eq!(
        place(&mut ledger, &mut bank, 2, post, 50, true),
        Err(LedgerError::InsufficientFunds)
    );
    assert_eq!(
        place(&mut ledger, &mut bank, 1, post, 1, true),
        Err(LedgerError::InsufficientFunds)
    );
    assert_eq!(ledger.record_count(), 0);
    assert_eq!(ledger.balance_of(post), 100);
    assert_eq!(bank.balance_of(&account(2)), 49);
    assert_eq!(place(&mut ledger, &mut bank, 2, post, 49, true).map(|id| id.sequence), Ok(0));
    assert_eq!(bank.balance_of(&account(2)), 0);
}

#[test]
fn staking_for_another_account_is_refused() {
    let mut ledger = Ledger::new(100);
    let mut bank = funded(&[(1, 1000), (2, 1000)]);
    let post = publish(&mut ledger, &mut bank, 1, 100).unwrap();
    let ctx = Stake { signer: account(2), payer: account(1), post_id: post };
    assert_eq!(
        stake(&mut ledger, &mut bank, &ctx, 50, true),
        Err(LedgerError::AuthorizationFailure)
    );
    assert_eq!(ledger.record_count(), 0);
    assert_eq!(bank.balance_of(&account(1)), 900);
    assert_eq!(bank.balance_of(&account(2)), 1000);
}

#[test]
fn close_post_happens_once() {
    let mut ledger = Ledger::new(100);
    let mut bank = funded(&[(1, 1000)]);
    assert_eq!(ledger.close_post(0), Err(LedgerError::PostNotFound));
    let post = publish(&mut ledger, &mut bank, 1, 100).unwrap();
    assert_eq!(ledger.close_post(post), Ok(()));
    assert_eq!(ledger.close_post(post), Err(LedgerError::PostClosed));
    assert_eq!(ledger.post(post).unwrap().status, PostStatus::Closed);
    assert_eq!(ledger.balance_of(post), 100);
}

#[test]
fn closing_one_post_leaves_others_open() {
    let mut ledger = Ledger::new(10);
    let mut bank = funded(&[(1, 1000)]);
    let first = publish(&mut ledger, &mut bank, 1, 10).unwrap();
    let second = publish(&mut ledger, &mut bank, 1, 10).unwrap();
    ledger.close_post(first).unwrap();
    assert!(place(&mut ledger, &mut bank, 1, second, 5, true).is_ok());
    assert_eq!(ledger.post(second).unwrap().total_agree, 5);
    assert_eq!(ledger.balance_of(first), 10);
    assert_eq!(ledger.balance_of(second), 15);
}

#[test]
fn many_stakers_lose_no_update() {
    let mut ledger = Ledger::new(100);
    let mut bank = funded(&[(0, 100)]);
    let post = publish(&mut ledger, &mut bank, 0, 100).unwrap();
    let callers: u8 = 40;
    for tag in 1..=callers {
        assert!(bank.credit(&account(tag), 7).is_ok());
    }
    for tag in (1..=callers).rev() {
        assert!(place(&mut ledger, &mut bank, tag, post, 7, true).is_ok());
    }
    let stored = ledger.post(post).unwrap();
    assert_eq!(stored.total_agree, 40 * 7);
    assert_eq!(stored.total_disagree, 0);
    assert_eq!(ledger.audit_count(post, Side::Agree), 40);
    assert_eq!(ledger.audit_count(post, Side::Disagree), 0);
    assert_eq!(ledger.audit_total(post, Side::Agree), 280);
    assert_eq!(ledger.balance_of(post), 100 + 280);
    for tag in 1..=callers {
        assert_eq!(bank.balance_of(&account(tag)), 0);
    }
}

#[test]
fn interleaved_stakes_keep_posts_apart() {
    let mut ledger = Ledger::new(10);
    let mut bank = funded(&[(1, 1000), (2, 1000), (3, 1000)]);
    let first = publish(&mut ledger, &mut bank, 1, 10).unwrap();
    let second = publish(&mut ledger, &mut bank, 2, 10).unwrap();
    place(&mut ledger, &mut bank, 3, first, 11, true).unwrap();
    place(&mut ledger, &mut bank, 1, second, 13, false).unwrap();
    place(&mut ledger, &mut bank, 2, first, 17, false).unwrap();
    place(&mut ledger, &mut bank, 3, second, 19, true).unwrap();
    place(&mut ledger, &mut bank, 1, first, 23, true).unwrap();
    for post in [first, second] {
        let stored = ledger.post(post).unwrap();
        assert_eq!(stored.total_agree, ledger.audit_total(post, Side::Agree));
        assert_eq!(stored.total_disagree, ledger.audit_total(post, Side::Disagree));
        assert_eq!(
            ledger.balance_of(post),
            stored.fee_paid as u128 + stored.total_agree + stored.total_disagree
        );
    }
    assert_eq!(ledger.post(first).unwrap().total_agree, 34);
    assert_eq!(ledger.post(first).unwrap().total_disagree, 17);
    assert_eq!(ledger.post(second).unwrap().total_agree, 19);
    assert_eq!(ledger.post(second).unwrap().total_disagree, 13);
    assert_eq!(ledger.balance_of(first), 61);
    assert_eq!(ledger.balance_of(second), 42);
    assert_eq!(ledger.audit_count(first, Side::Agree), 2);
    assert_eq!(ledger.audit_count(second, Side::Disagree), 1);
    assert_eq!(ledger.audit_total(7, Side::Agree), 0);
    assert_eq!(ledger.record_count(), 5);
    for sequence in 0..5u64 {
        assert_eq!(ledger.record(sequence).unwrap().sequence, sequence);
    }
    assert_eq!(bank.balance_of(&account(1)), 1000 - 10 - 13 - 23);
    assert_eq!(bank.balance_of(&account(2)), 1000 - 10 - 17);
    assert_eq!(bank.balance_of(&account(3)), 1000 - 11 - 19);
}

#[test]
fn totals_grow_past_sixty_four_bits() {
    let mut ledger = Ledger::new(u64::MAX);
    let mut bank = funded(&[(1, u64::MAX)]);
    let post = publish(&mut ledger, &mut bank, 1, u64::MAX).unwrap();
    for _ in 0..3 {
        assert!(bank.credit(&account(1), u64::MAX).is_ok());
        place(&mut ledger, &mut bank, 1, post, u64::MAX, true).unwrap();
    }
    let stored = ledger.post(post).unwrap();
    assert_eq!(stored.total_agree, 3 * (u64::MAX as u128));
    assert_eq!(ledger.audit_total(post, Side::Agree), 3 * (u64::MAX as u128));
    assert_eq!(ledger.balance_of(post), 4 * (u64::MAX as u128));
}

#[test]
fn refused_operations_leave_no_trace() {
    let mut ledger = Ledger::new(100);
    let mut bank = funded(&[(1, 1000)]);
    let post = publish(&mut ledger, &mut bank, 1, 100).unwrap();
    place(&mut ledger, &mut bank, 1, post, 50, true).unwrap();
    assert!(publish(&mut ledger, &mut bank, 1, 1).is_err());
    assert!(place(&mut ledger, &mut bank, 1, post, 0, false).is_err());
    assert!(place(&mut ledger, &mut bank, 1, post + 1, 5, false).is_err());
    assert!(place(&mut ledger, &mut bank, 1, post, 5000, false).is_err());
    assert_eq!(ledger.post_count(), 1);
    assert_eq!(ledger.record_count(), 1);
    assert_eq!(ledger.post(post).unwrap().total_agree, 50);
    assert_eq!(ledger.post(post).unwrap().total_disagree, 0);
    assert_eq!(ledger.balance_of(post), 150);
    assert_eq!(bank.balance_of(&account(1)), 850);
}
