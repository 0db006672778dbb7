//! The value-transfer primitive that the ledger draws on, and an in-memory
//! implementation of it.

use vstd::prelude::*;
use crate::error::TransferFailure;
use crate::identity::AccountId;

verus! {

/// Something that holds the participants' balances and can take value out of
/// them. The ledger never looks inside: it asks for a debit and learns only
/// whether it was carried out.
pub trait TransferPrimitive {
    /// What the account holds.
    spec fn balance(&self, account: AccountId) -> nat;

    /// Whether a debit of `amount` from `account` would be carried out.
    spec fn covers(&self, account: AccountId, amount: u64) -> bool;

    /// Takes `amount` out of `account`, or fails and moves nothing. No other
    /// account is touched either way.
    fn debit(&mut self, account: &AccountId, amount: u64) -> (outcome: Result<(), TransferFailure>)
        ensures
            outcome is Ok <==> old(self).covers(*account, amount),
            outcome is Ok ==> final(self).balance(*account) + amount == old(self).balance(*account),
            outcome is Err ==> final(self).balance(*account) == old(self).balance(*account),
            forall|other: AccountId|
                other != *account ==> #[trigger] final(self).balance(other) == old(self).balance(
                    other,
                ),
    ;
}

/// Every account holds in `after` what it held in `before`.
pub open spec fn same_balances<B: TransferPrimitive>(before: B, after: B) -> bool {
    forall|account: AccountId| #[trigger] after.balance(account) == before.balance(account)
}

/// `after` is `before` with `amount` taken out of `account` and every other
/// account as it was.
pub open spec fn debited<B: TransferPrimitive>(
    before: B,
    after: B,
    account: AccountId,
    amount: u64,
) -> bool {
    &&& after.balance(account) + amount == before.balance(account)
    &&& forall|other: AccountId|
        other != account ==> #[trigger] after.balance(other) == before.balance(other)
}

/// One account's entry in a `MemoryBank`.
#[derive(Clone, Copy, Debug)]
pub struct Account {
    id: AccountId,
    balance: u64,
}

/// Balances kept in memory. An account that was never credited holds nothing.
#[derive(Debug)]
pub struct MemoryBank {
    entries: Vec<Account>,
}

/// What `id` holds according to the entries: the balance of its last entry,
/// or nothing where it has none.
pub closed spec fn balance_in(entries: Seq<Account>, id: AccountId) -> nat
    decreases entries.len(),
{
    if entries.len() == 0 {
        0
    } else if entries.last().id == id {
        entries.last().balance as nat
    } else {
        balance_in(entries.drop_last(), id)
    }
}

/// An account with no entry holds nothing.
proof fn lemma_absent_holds_nothing(entries: Seq<Account>, id: AccountId)
    requires
        forall|j: int| 0 <= j < entries.len() ==> entries[j].id != id,
    ensures
        balance_in(entries, id) == 0,
    decreases entries.len(),
{
    if entries.len() > 0 {
        lemma_absent_holds_nothing(entries.drop_last(), id);
    }
}

/// An account holds what its last entry says.
proof fn lemma_last_entry_decides(entries: Seq<Account>, id: AccountId, i: int)
    requires
        0 <= i < entries.len(),
        entries[i].id == id,
        forall|j: int| i < j < entries.len() ==> entries[j].id != id,
    ensures
        balance_in(entries, id) == entries[i].balance,
    decreases entries.len(),
{
    if i < entries.len() - 1 {
        lemma_last_entry_decides(entries.drop_last(), id, i);
    }
}

/// Changing the balance in one entry changes nothing for other accounts.
proof fn lemma_update_leaves_others(entries: Seq<Account>, i: int, balance: u64, other: AccountId)
    requires
        0 <= i < entries.len(),
        entries[i].id != other,
    ensures
        balance_in(entries.update(i, Account { id: entries[i].id, balance }), other) == balance_in(
            entries,
            other,
        ),
    decreases entries.len(),
{
    let updated = entries.update(i, Account { id: entries[i].id, balance });
    if i < entries.len() - 1 {
        assert(updated.drop_last() =~= entries.drop_last().update(
            i,
            Account { id: entries.drop_last()[i].id, balance },
        ));
        lemma_update_leaves_others(entries.drop_last(), i, balance, other);
    } else {
        assert(updated.drop_last() =~= entries.drop_last());
    }
}

impl MemoryBank {
    /// A bank in which every account holds nothing.
    pub fn new() -> (bank: MemoryBank)
        ensures
            forall|account: AccountId| #[trigger] bank.balance(account) == 0,
    {
        MemoryBank { entries: Vec::new() }
    }

    /// The index of the account's last entry.
    fn position(&self, account: &AccountId) -> (found: Option<usize>)
        ensures
            match found {
                Some(i) => {
                    &&& i < self.entries@.len()
                    &&& self.entries@[i as int].id == *account
                    &&& forall|j: int|
                        i < j < self.entries@.len() ==> self.entries@[j].id != *account
                },
                None => forall|j: int|
                    0 <= j < self.entries@.len() ==> self.entries@[j].id != *account,
            },
    {
        let mut i: usize = self.entries.len();
        while i > 0
            invariant
                i <= self.entries@.len(),
                forall|j: int| i <= j < self.entries@.len() ==> self.entries@[j].id != *account,
            decreases i,
        {
            i -= 1;
            if self.entries[i].id.same_as(account) {
                return Some(i);
            }
        }
        None
    }

    /// What the account holds.
    pub fn balance_of(&self, account: &AccountId) -> (held: u64)
        ensures
            held == self.balance(*account),
    {
        match self.position(account) {
            Some(i) => {
                proof {
                    lemma_last_entry_decides(self.entries@, *account, i as int);
                }
                self.entries[i].balance
            },
            None => {
                proof {
                    lemma_absent_holds_nothing(self.entries@, *account);
                }
                0
            },
        }
    }

    /// Adds `amount` to what `account` holds. Fails, changing nothing, exactly
    /// when the balance would no longer fit in 64 bits.
    pub fn credit(&mut self, account: &AccountId, amount: u64) -> (outcome: Result<
        (),
        TransferFailure,
    >)
        ensures
            outcome is Ok <==> old(self).balance(*account) + amount <= u64::MAX,
            outcome is Ok ==> final(self).balance(*account) == old(self).balance(*account) + amount,
            outcome is Err ==> final(self).balance(*account) == old(self).balance(*account),
            forall|other: AccountId|
                other != *account ==> #[trigger] final(self).balance(other) == old(self).balance(
                    other,
                ),
    {
        match self.position(account) {
            Some(i) => {
                let entry = self.entries[i];
                proof {
                    lemma_last_entry_decides(self.entries@, *account, i as int);
                }
                match entry.balance.checked_add(amount) {
                    Some(balance) => {
                        self.store(i, balance);
                        Ok(())
                    },
                    None => Err(TransferFailure {  }),
                }
            },
            None => {
                proof {
                    lemma_absent_holds_nothing(self.entries@, *account);
                }
                self.entries.push(Account { id: *account, balance: amount });
                proof {
                    assert(self.entries@.drop_last() =~= old(self).entries@);
                }
                Ok(())
            },
        }
    }

    /// Sets the balance in the account's last entry.
    fn store(&mut self, i: usize, balance: u64)
        requires
            i < old(self).entries@.len(),
            forall|j: int|
                i < j < old(self).entries@.len() ==> old(self).entries@[j].id != old(
                    self,
                ).entries@[i as int].id,
        ensures
            final(self).balance(old(self).entries@[i as int].id) == balance,
            forall|other: AccountId|
                other != old(self).entries@[i as int].id ==> #[trigger] final(self).balance(other)
                    == old(self).balance(other),
    {
        let id = self.entries[i].id;
        self.entries[i] = Account { id, balance };
        proof {
            lemma_last_entry_decides(self.entries@, id, i as int);
            assert forall|other: AccountId| other != id implies #[trigger] self.balance(other)
                == old(self).balance(other) by {
                lemma_update_leaves_others(old(self).entries@, i as int, balance, other);
            }
        }
    }
}

impl TransferPrimitive for MemoryBank {
    closed spec fn balance(&self, account: AccountId) -> nat {
        balance_in(self.entries@, account)
    }

    open spec fn covers(&self, account: AccountId, amount: u64) -> bool {
        self.balance(account) >= amount
    }

    fn debit(&mut self, account: &AccountId, amount: u64) -> (outcome: Result<
        (),
        TransferFailure,
    >) {
        match self.position(account) {
            Some(i) => {
                let entry = self.entries[i];
                proof {
                    lemma_last_entry_decides(self.entries@, *account, i as int);
                }
                if entry.balance >= amount {
                    self.store(i, entry.balance - amount);
                    Ok(())
                } else {
                    Err(TransferFailure {  })
                }
            },
            None => {
                proof {
                    lemma_absent_holds_nothing(self.entries@, *account);
                }
                if amount == 0 {
                    Ok(())
                } else {
                    Err(TransferFailure {  })
                }
            },
        }
    }
}

} // verus!
