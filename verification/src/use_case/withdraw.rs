//! Withdrawal: debit one account that holds enough.

use vstd::prelude::*;

use crate::dto::transaction::WithdrawalTransactionDTO;
use crate::error::LedgerError;
use crate::laws::consistency::law_posting_keeps_consistency;
use crate::ledger::Ledger;
use crate::model::transaction::{Transaction, TransactionView};
use crate::plan::{lemma_single_leg_posts, Stamp};
use crate::storage::Storage;
use crate::token::{lemma_successor_differs, successor};
use crate::use_case::UseCase;

verus! {

/// Why the rules refuse a withdrawal of `amount` from `account_id`, if they do.
/// The amount is judged before the account is looked at.
pub open spec fn withdrawal_refusal(ledger: Ledger, account_id: u128, amount: int) -> Option<
    LedgerError,
> {
    if amount <= 0 {
        Some(LedgerError::InvalidAmount)
    } else if !ledger.accounts.contains_key(account_id) {
        Some(LedgerError::AccountNotFound)
    } else if ledger.accounts[account_id].balance < amount {
        Some(LedgerError::InsufficientBalance)
    } else {
        None
    }
}

/// What a withdrawal does to a store, and what it answers.
///
/// On success the rules refused nothing, the answer is the one transaction of
/// `-amount` against the account as it was, and the ledger is the one before
/// with that transaction posted: the balance lower by exactly the amount, under
/// a new version. On failure the ledger is untouched, and the failure is the
/// one the rules give, or unavailability from a store that is not reliable.
/// Where the rules refuse nothing, a reliable store succeeds. An amount that is
/// not strictly positive is refused before the store is asked anything, so
/// whatever the store. A consistent ledger stays consistent.
pub open spec fn withdrawal_outcome(
    before: Ledger,
    after: Ledger,
    reliable: bool,
    input: WithdrawalTransactionDTO,
    r: Result<Vec<Transaction>, LedgerError>,
) -> bool {
    let refusal = withdrawal_refusal(before, input.account_id, input.amount@);
    &&& before.consistent() ==> after.consistent()
    &&& reliable && refusal is None ==> r is Ok
    &&& input.amount@ <= 0 ==> r == Err::<Vec<Transaction>, LedgerError>(LedgerError::InvalidAmount)
    &&& match r {
        Ok(done) => {
            &&& refusal is None
            &&& done@.len() == 1
            &&& done@[0]@ == TransactionView::against(
                before.accounts[input.account_id],
                input.idempotency_key@,
                -input.amount@,
                done@[0].id,
                done@[0].created_at as int,
            )
            &&& after == before.posted(done@[0]@, after.accounts[input.account_id].version)
            &&& after.accounts[input.account_id].version
                != before.accounts[input.account_id].version
        },
        Err(e) => {
            &&& after == before
            &&& refusal == Some(e) || (e == LedgerError::StorageUnavailable && !reliable)
        },
    }
}

/// Debits an account of `storage`: validate the amount, read the account,
/// check that it holds the amount, prepare the batch, apply it atomically.
/// There is no retry.
pub fn withdrawal<S: Storage>(storage: &mut S, input: WithdrawalTransactionDTO) -> (r: Result<
    Vec<Transaction>,
    LedgerError,
>)
    ensures
        final(storage).reliable() == old(storage).reliable(),
        withdrawal_outcome(
            old(storage).state(),
            final(storage).state(),
            old(storage).reliable(),
            input,
            r,
        ),
{
    let account_id = match input.begin() {
        Err(e) => {
            return Err(e);
        },
        Ok(account_id) => account_id,
    };
    let loaded = match storage.get_account(account_id) {
        Err(e) => {
            return Err(e);
        },
        Ok(loaded) => loaded,
    };
    let stamp = Stamp::draw();
    let batch = match input.plan(loaded.as_ref(), &stamp) {
        Err(e) => {
            return Err(e);
        },
        Ok(batch) => batch,
    };
    proof {
        lemma_single_leg_posts(
            storage.state(),
            loaded->0@,
            input.idempotency_key@,
            -input.amount@,
            stamp,
        );
        lemma_successor_differs(loaded->0.version, stamp.version);
    }
    let ghost before = storage.state();
    let ghost entries = batch@.transactions;
    let r = storage.atomic_apply(batch.new_transactions, batch.updated_accounts);
    proof {
        if r is Ok {
            let done = r->Ok_0;
            if before.consistent() {
                law_posting_keeps_consistency(
                    before,
                    entries[0],
                    successor(loaded->0.version, stamp.version),
                );
            }
            assert(entries[0] == done@[0]@);
            assert(done@.len() == entries.len());
            assert(storage.state().accounts[input.account_id].version == successor(
                loaded->0.version,
                stamp.version,
            ));
        }
    }
    r
}

/// The withdrawal operation over a store.
pub struct WithdrawalUseCase<S: Storage> {
    pub storage: S,
}

impl<S: Storage> WithdrawalUseCase<S> {
    /// The operation over `storage`.
    pub fn new(storage: S) -> (u: Self)
        ensures
            u.storage == storage,
    {
        WithdrawalUseCase { storage }
    }
}

impl<S: Storage> UseCase<WithdrawalTransactionDTO, Vec<Transaction>> for WithdrawalUseCase<S> {
    /// Runs [`withdrawal`] on the store of this use case.
    fn execute(&mut self, input: WithdrawalTransactionDTO) -> (r: Result<
        Vec<Transaction>,
        LedgerError,
    >)
        ensures
            final(self).storage.reliable() == old(self).storage.reliable(),
            withdrawal_outcome(
                old(self).storage.state(),
                final(self).storage.state(),
                old(self).storage.reliable(),
                input,
                r,
            ),
    {
        withdrawal(&mut self.storage, input)
    }
}

} // verus!
