use verisphere::{
    authorize, AccountId, ErrorKind, LedgerError, MemoryBank, Operation, Post, PostStatus, Side,
    TransferFailure, TransferPrimitive, Vault,
};

fn key(tag: u8) -> AccountId {
    AccountId::new([tag; 32])
}

#[test]
fn account_ids_compare_by_key() {
    let mut bytes = [3u8; 32];
    let first = AccountId::new(bytes);
    assert!(first.same_as(&key(3)));
    assert!(first == key(3));
    bytes[31] = 4;
    let second = AccountId::new(bytes);
    assert!(!first.same_as(&second));
    assert!(first != second);
    bytes[31] = 3;
    bytes[0] = 0;
    assert!(!first.same_as(&AccountId::new(bytes)));
    assert_eq!(first.key, [3u8; 32]);
}

#[test]
fn only_the_payer_is_authorized() {
    let create = Operation::CreatePost { payer: key(1), fee_amount: 100 };
    let place = Operation::Stake { payer: key(2), post_id: 0, amount: 5, side: Side::Agree };
    assert!(authorize(&key(1), &create));
    assert!(!authorize(&key(2), &create));
    assert!(authorize(&key(2), &place));
    assert!(!authorize(&key(1), &place));
    assert!(create.debited() == key(1));
    assert!(place.debited() == key(2));
}

#[test]
fn every_error_has_its_kind() {
    assert_eq!(LedgerError::InvalidFee.kind(), ErrorKind::ValidationError);
    assert_eq!(LedgerError::ZeroOrNegativeAmount.kind(), ErrorKind::ValidationError);
    assert_eq!(LedgerError::PostNotFound.kind(), ErrorKind::StateError);
    assert_eq!(LedgerError::PostClosed.kind(), ErrorKind::StateError);
    assert_eq!(LedgerError::AuthorizationFailure.kind(), ErrorKind::AuthorizationFailure);
    assert_eq!(LedgerError::InsufficientFunds.kind(), ErrorKind::ResourceError);
}

#[test]
fn side_follows_the_answer() {
    assert_eq!(Side::from_agree(true), Side::Agree);
    assert_eq!(Side::from_agree(false), Side::Disagree);
}

#[test]
fn post_reports_its_totals() {
    let post = Post {
        id: 4,
        creator: key(1),
        fee_paid: 100,
        status: PostStatus::Closed,
        total_agree: 12,
        total_disagree: 34,
    };
    assert_eq!(post.total(Side::Agree), 12);
    assert_eq!(post.total(Side::Disagree), 34);
    assert!(!post.is_open());
}

#[test]
fn empty_bank_holds_nothing() {
    let bank = MemoryBank::new();
    assert_eq!(bank.balance_of(&key(1)), 0);
    assert_eq!(bank.balance_of(&key(200)), 0);
}

#[test]
fn bank_credits_add_up() {
    let mut bank = MemoryBank::new();
    assert_eq!(bank.credit(&key(1), 10), Ok(()));
    assert_eq!(bank.credit(&key(2), 5), Ok(()));
    assert_eq!(bank.credit(&key(1), 32), Ok(()));
    assert_eq!(bank.balance_of(&key(1)), 42);
    assert_eq!(bank.balance_of(&key(2)), 5);
    assert_eq!(bank.balance_of(&key(3)), 0);
}

#[test]
fn bank_credit_that_does_not_fit_is_refused() {
    let mut bank = MemoryBank::new();
    assert_eq!(bank.credit(&key(1), u64::MAX - 1), Ok(()));
    assert_eq!(bank.credit(&key(1), 2), Err(TransferFailure {}));
    assert_eq!(bank.balance_of(&key(1)), u64::MAX - 1);
    assert_eq!(bank.credit(&key(1), 1), Ok(()));
    assert_eq!(bank.balance_of(&key(1)), u64::MAX);
}

#[test]
fn bank_debits_what_is_covered() {
    let mut bank = MemoryBank::new();
    bank.credit(&key(1), 10).unwrap();
    bank.credit(&key(2), 10).unwrap();
    assert_eq!(bank.debit(&key(1), 4), Ok(()));
    assert_eq!(bank.balance_of(&key(1)), 6);
    assert_eq!(bank.balance_of(&key(2)), 10);
    assert_eq!(bank.debit(&key(1), 7), Err(TransferFailure {}));
    assert_eq!(bank.balance_of(&key(1)), 6);
    assert_eq!(bank.debit(&key(1), 6), Ok(()));
    assert_eq!(bank.balance_of(&key(1)), 0);
    assert_eq!(bank.debit(&key(1), 1), Err(TransferFailure {}));
    assert_eq!(bank.debit(&key(1), 0), Ok(()));
}

#[test]
fn bank_debit_of_unknown_account() {
    let mut bank = MemoryBank::new();
    assert_eq!(bank.debit(&key(9), 1), Err(TransferFailure {}));
    assert_eq!(bank.debit(&key(9), 0), Ok(()));
    assert_eq!(bank.balance_of(&key(9)), 0);
}

#[test]
fn empty_vault_holds_nothing() {
    let vault = Vault::new();
    assert_eq!(vault.balance_of(0), 0);
    assert_eq!(vault.balance_of(u64::MAX), 0);
}

#[test]
fn vault_deposit_moves_value() {
    let mut vault = Vault::new();
    let mut bank = MemoryBank::new();
    bank.credit(&key(1), 100).unwrap();
    assert_eq!(vault.deposit(&mut bank, 3, 60, &key(1)), Ok(()));
    assert_eq!(vault.balance_of(3), 60);
    assert_eq!(bank.balance_of(&key(1)), 40);
    assert_eq!(vault.deposit(&mut bank, 3, 40, &key(1)), Ok(()));
    assert_eq!(vault.balance_of(3), 100);
    assert_eq!(vault.balance_of(2), 0);
    assert_eq!(bank.balance_of(&key(1)), 0);
}

#[test]
fn vault_deposit_fails_without_moving_anything() {
    let mut vault = Vault::new();
    let mut bank = MemoryBank::new();
    bank.credit(&key(1), 100).unwrap();
    vault.deposit(&mut bank, 3, 60, &key(1)).unwrap();
    assert_eq!(vault.deposit(&mut bank, 3, 41, &key(1)), Err(TransferFailure {}));
    assert_eq!(vault.deposit(&mut bank, 5, 1, &key(2)), Err(TransferFailure {}));
    assert_eq!(vault.balance_of(3), 60);
    assert_eq!(vault.balance_of(5), 0);
    assert_eq!(bank.balance_of(&key(1)), 40);
}
