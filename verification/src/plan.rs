//! What each money movement writes: the business rules as functions from the
//! accounts as they were read to the batch to apply, or to the reason for
//! refusing.

use vstd::prelude::*;

use crate::clock::now_in_nanos;
use crate::error::LedgerError;
use crate::ledger::{
    transaction_views, update_views, AccountUpdate, AccountUpdateView, Ledger,
};
use crate::model::account::AccountView;
use crate::model::transaction::{Transaction, TransactionView};
use crate::money::representable;
use crate::token::{is_random_uuid, random_uuid, successor};

verus! {

/// What one leg of a movement draws from outside: the identifier of its
/// transaction, a candidate for the next version of its account, and the time.
#[derive(Clone, Copy, Debug, PartialEq, Eq, Structural)]
pub struct Stamp {
    pub id: u128,
    pub version: u128,
    pub at: i64,
}

impl Stamp {
    /// Draws two random tokens and reads the clock. Every rule holds for any
    /// stamp; of the drawn one only the marks of its tokens are known.
    pub fn draw() -> (stamp: Stamp)
        ensures
            is_random_uuid(stamp.id),
            is_random_uuid(stamp.version),
    {
        Stamp { id: random_uuid(), version: random_uuid(), at: now_in_nanos() }
    }
}

/// The input of one atomic apply: the transactions to record and the account
/// writes that go with them.
#[derive(Debug, PartialEq, Eq)]
pub struct Batch {
    pub new_transactions: Vec<Transaction>,
    pub updated_accounts: Vec<AccountUpdate>,
}

/// A batch as plain mathematical values.
pub struct BatchView {
    pub transactions: Seq<TransactionView>,
    pub updates: Seq<AccountUpdateView>,
}

impl View for Batch {
    type V = BatchView;

    open spec fn view(&self) -> BatchView {
        BatchView {
            transactions: transaction_views(self.new_transactions@),
            updates: update_views(self.updated_accounts@),
        }
    }
}

/// The transaction of one leg: `amount` against `account` as it was read.
pub open spec fn leg_entry(
    account: AccountView,
    idempotency_key: Seq<char>,
    amount: int,
    stamp: Stamp,
) -> TransactionView {
    TransactionView::against(account, idempotency_key, amount, stamp.id, stamp.at as int)
}

/// The account write of one leg: the balance moved by `amount`, conditioned on
/// the version that was read.
pub open spec fn leg_update(account: AccountView, amount: int, stamp: Stamp) -> AccountUpdateView {
    AccountUpdateView {
        account: account.moved(amount, stamp.at as int, stamp.version),
        expected_version: account.version,
    }
}

/// The batch of a movement on a single account.
pub open spec fn single_leg(
    account: AccountView,
    idempotency_key: Seq<char>,
    amount: int,
    stamp: Stamp,
) -> BatchView {
    BatchView {
        transactions: seq![leg_entry(account, idempotency_key, amount, stamp)],
        updates: seq![leg_update(account, amount, stamp)],
    }
}

/// The rule of a deposit. The amount must be strictly positive, the account
/// must exist, and the credited balance must be representable; then one
/// transaction of `+amount` and one account write.
pub open spec fn deposit_plan(
    idempotency_key: Seq<char>,
    amount: int,
    account: Option<AccountView>,
    stamp: Stamp,
) -> Result<BatchView, LedgerError> {
    if amount <= 0 {
        Err(LedgerError::InvalidAmount)
    } else if account is None {
        Err(LedgerError::AccountNotFound)
    } else if !representable(account->0.balance + amount) {
        Err(LedgerError::BalanceOverflow)
    } else {
        Ok(single_leg(account->0, idempotency_key, amount, stamp))
    }
}

/// The rule of a withdrawal. The amount must be strictly positive, the account
/// must exist and hold at least the amount; then one transaction of `-amount`
/// and one account write.
pub open spec fn withdrawal_plan(
    idempotency_key: Seq<char>,
    amount: int,
    account: Option<AccountView>,
    stamp: Stamp,
) -> Result<BatchView, LedgerError> {
    if amount <= 0 {
        Err(LedgerError::InvalidAmount)
    } else if account is None {
        Err(LedgerError::AccountNotFound)
    } else if account->0.balance < amount {
        Err(LedgerError::InsufficientBalance)
    } else {
        Ok(single_leg(account->0, idempotency_key, -amount, stamp))
    }
}

/// The rule of a transfer. The amount must be strictly positive, the source
/// must exist and hold at least the amount, the destination must exist and its
/// credited balance must be representable; then the debit on the source and the
/// credit on the destination, in this order, under one idempotency key.
pub open spec fn transfer_plan(
    idempotency_key: Seq<char>,
    amount: int,
    from: Option<AccountView>,
    to: Option<AccountView>,
    from_stamp: Stamp,
    to_stamp: Stamp,
) -> Result<BatchView, LedgerError> {
    if amount <= 0 {
        Err(LedgerError::InvalidAmount)
    } else if from is None {
        Err(LedgerError::SourceNotFound)
    } else if from->0.balance < amount {
        Err(LedgerError::InsufficientBalance)
    } else if to is None {
        Err(LedgerError::DestinationNotFound)
    } else if !representable(to->0.balance + amount) {
        Err(LedgerError::BalanceOverflow)
    } else {
        Ok(
            BatchView {
                transactions: seq![
                    leg_entry(from->0, idempotency_key, -amount, from_stamp),
                    leg_entry(to->0, idempotency_key, amount, to_stamp),
                ],
                updates: seq![
                    leg_update(from->0, -amount, from_stamp),
                    leg_update(to->0, amount, to_stamp),
                ],
            },
        )
    }
}

/// Whether an executable plan is the one the rule gives.
pub open spec fn plan_is(r: Result<Batch, LedgerError>, rule: Result<BatchView, LedgerError>) -> bool {
    match r {
        Ok(batch) => rule == Ok::<BatchView, LedgerError>(batch@),
        Err(e) => rule == Err::<BatchView, LedgerError>(e),
    }
}

/// A single-leg batch, prepared from the account as the ledger holds it, is
/// admitted, and applying it posts its transaction.
pub proof fn lemma_single_leg_posts(
    ledger: Ledger,
    account: AccountView,
    idempotency_key: Seq<char>,
    amount: int,
    stamp: Stamp,
)
    requires
        ledger.account(account.uuid) == Some(account),
    ensures
        ({
            let batch = single_leg(account, idempotency_key, amount, stamp);
            &&& ledger.admits(batch.updates)
            &&& ledger.applied(batch.transactions, batch.updates) == ledger.posted(
                leg_entry(account, idempotency_key, amount, stamp),
                successor(account.version, stamp.version),
            )
        }),
{
    let batch = single_leg(account, idempotency_key, amount, stamp);
    let entry = leg_entry(account, idempotency_key, amount, stamp);
    let after = ledger.posted(entry, successor(account.version, stamp.version));
    assert(batch.updates.drop_last() =~= Seq::empty());
    reveal_with_fuel(Ledger::updated, 2);
    assert(Ledger::updated(ledger.accounts, batch.updates) =~= after.accounts);
    assert(ledger.transactions + batch.transactions =~= after.transactions);
}

/// A two-leg batch, prepared from both accounts as the ledger holds them, is
/// admitted exactly when the accounts are distinct, and applying it then posts
/// the debit and the credit, in this order.
pub proof fn lemma_two_legs_post(
    ledger: Ledger,
    from: AccountView,
    to: AccountView,
    idempotency_key: Seq<char>,
    amount: int,
    from_stamp: Stamp,
    to_stamp: Stamp,
)
    requires
        ledger.account(from.uuid) == Some(from),
        ledger.account(to.uuid) == Some(to),
    ensures
        ({
            let debit = leg_entry(from, idempotency_key, -amount, from_stamp);
            let credit = leg_entry(to, idempotency_key, amount, to_stamp);
            let updates = seq![leg_update(from, -amount, from_stamp), leg_update(to, amount, to_stamp)];
            &&& ledger.admits(updates) <==> from.uuid != to.uuid
            &&& from.uuid != to.uuid ==> ledger.applied(seq![debit, credit], updates)
                == ledger.posted(debit, successor(from.version, from_stamp.version)).posted(
                credit,
                successor(to.version, to_stamp.version),
            )
        }),
{
    let debit = leg_entry(from, idempotency_key, -amount, from_stamp);
    let credit = leg_entry(to, idempotency_key, amount, to_stamp);
    let first = leg_update(from, -amount, from_stamp);
    let second = leg_update(to, amount, to_stamp);
    let updates = seq![first, second];
    assert(updates[0] == first && updates[1] == second);
    if from.uuid != to.uuid {
        let after = ledger.posted(debit, successor(from.version, from_stamp.version)).posted(
            credit,
            successor(to.version, to_stamp.version),
        );
        assert(updates.drop_last() =~= seq![first]);
        assert(updates.drop_last().drop_last() =~= Seq::empty());
        reveal_with_fuel(Ledger::updated, 3);
        assert(Ledger::updated(ledger.accounts, updates) =~= after.accounts);
        assert(ledger.transactions + seq![debit, credit] =~= after.transactions);
    } else {
        assert(!ledger.admits(updates)) by {
            if ledger.admits(updates) {
                assert(updates[0].account.uuid != updates[1].account.uuid);
            }
        }
    }
}

} // verus!
