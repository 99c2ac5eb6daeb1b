//! Transfer: debit one account and credit another, together or not at all.

use vstd::prelude::*;

use crate::dto::transaction::TransferTransactionDTO;
use crate::error::LedgerError;
use crate::laws::consistency::law_posting_keeps_consistency;
use crate::ledger::Ledger;
use crate::model::transaction::{Transaction, TransactionView};
use crate::money::representable;
use crate::plan::{lemma_two_legs_post, Stamp};
use crate::storage::Storage;
use crate::token::{lemma_successor_differs, successor};
use crate::use_case::UseCase;

verus! {

/// Why the rules refuse a transfer of `amount` from `from` to `to`, if they do,
/// in the order in which the checks are made: the amount, the source, its
/// balance, the destination, the credited balance. A transfer from an account to
/// itself ends in a version conflict: its first write retires the version its
/// second write expects.
pub open spec fn transfer_refusal(ledger: Ledger, from: u128, to: u128, amount: int) -> Option<
    LedgerError,
> {
    if amount <= 0 {
        Some(LedgerError::InvalidAmount)
    } else if !ledger.accounts.contains_key(from) {
        Some(LedgerError::SourceNotFound)
    } else if ledger.accounts[from].balance < amount {
        Some(LedgerError::InsufficientBalance)
    } else if !ledger.accounts.contains_key(to) {
        Some(LedgerError::DestinationNotFound)
    } else if !representable(ledger.accounts[to].balance + amount) {
        Some(LedgerError::BalanceOverflow)
    } else if from == to {
        Some(LedgerError::VersionConflict)
    } else {
        None
    }
}

/// What a transfer does to a store, and what it answers.
///
/// On success the rules refused nothing, the answer is the debit on the source
/// and then the credit on the destination, exact negatives of each other under
/// one idempotency key, and the ledger is the one before with both posted:
/// both balances moved by exactly the amount, under new versions. On failure
/// the ledger is untouched, never one leg without the other, and the failure
/// is the one the rules give, or unavailability from a store that is not
/// reliable. Where the rules refuse nothing, a reliable store succeeds. An
/// amount that is not strictly positive is refused before the store is asked
/// anything, so whatever the store. A consistent ledger stays consistent.
pub open spec fn transfer_outcome(
    before: Ledger,
    after: Ledger,
    reliable: bool,
    input: TransferTransactionDTO,
    r: Result<Vec<Transaction>, LedgerError>,
) -> bool {
    let refusal = transfer_refusal(
        before,
        input.from_account_id,
        input.to_account_id,
        input.amount@,
    );
    &&& before.consistent() ==> after.consistent()
    &&& reliable && refusal is None ==> r is Ok
    &&& input.amount@ <= 0 ==> r == Err::<Vec<Transaction>, LedgerError>(LedgerError::InvalidAmount)
    &&& match r {
        Ok(done) => {
            &&& refusal is None
            &&& done@.len() == 2
            &&& done@[0]@ == TransactionView::against(
                before.accounts[input.from_account_id],
                input.idempotency_key@,
                -input.amount@,
                done@[0].id,
                done@[0].created_at as int,
            )
            &&& done@[1]@ == TransactionView::against(
                before.accounts[input.to_account_id],
                input.idempotency_key@,
                input.amount@,
                done@[1].id,
                done@[1].created_at as int,
            )
            &&& after == before.posted(
                done@[0]@,
                after.accounts[input.from_account_id].version,
            ).posted(done@[1]@, after.accounts[input.to_account_id].version)
            &&& after.accounts[input.from_account_id].version
                != before.accounts[input.from_account_id].version
            &&& after.accounts[input.to_account_id].version
                != before.accounts[input.to_account_id].version
        },
        Err(e) => {
            &&& after == before
            &&& refusal == Some(e) || (e == LedgerError::StorageUnavailable && !reliable)
        },
    }
}

/// Moves money between two accounts of `storage`: validate the amount, read
/// the source and check that it holds the amount, read the destination,
/// prepare the batch, apply it atomically. There is no retry.
pub fn transfer<S: Storage>(storage: &mut S, input: TransferTransactionDTO) -> (r: Result<
    Vec<Transaction>,
    LedgerError,
>)
    ensures
        final(storage).reliable() == old(storage).reliable(),
        transfer_outcome(
            old(storage).state(),
            final(storage).state(),
            old(storage).reliable(),
            input,
            r,
        ),
{
    let from_id = match input.begin() {
        Err(e) => {
            return Err(e);
        },
        Ok(from_id) => from_id,
    };
    let source = match storage.get_account(from_id) {
        Err(e) => {
            return Err(e);
        },
        Ok(source) => source,
    };
    let to_id = match input.proceed(source.as_ref()) {
        Err(e) => {
            return Err(e);
        },
        Ok(to_id) => to_id,
    };
    let to = match storage.get_account(to_id) {
        Err(e) => {
            return Err(e);
        },
        Ok(to) => to,
    };
    let ghost from = source->0;
    let from_stamp = Stamp::draw();
    let to_stamp = Stamp::draw();
    let batch = match input.plan(source.as_ref(), to.as_ref(), &from_stamp, &to_stamp) {
        Err(e) => {
            return Err(e);
        },
        Ok(batch) => batch,
    };
    proof {
        lemma_two_legs_post(
            storage.state(),
            from@,
            to->0@,
            input.idempotency_key@,
            input.amount@,
            from_stamp,
            to_stamp,
        );
        lemma_successor_differs(from.version, from_stamp.version);
        lemma_successor_differs(to->0.version, to_stamp.version);
    }
    let ghost before = storage.state();
    let ghost entries = batch@.transactions;
    let r = storage.atomic_apply(batch.new_transactions, batch.updated_accounts);
    proof {
        if r is Ok {
            let done = r->Ok_0;
            if before.consistent() {
                let debited = before.posted(
                    entries[0],
                    successor(from.version, from_stamp.version),
                );
                law_posting_keeps_consistency(
                    before,
                    entries[0],
                    successor(from.version, from_stamp.version),
                );
                law_posting_keeps_consistency(
                    debited,
                    entries[1],
                    successor(to->0.version, to_stamp.version),
                );
            }
            assert(entries[0] == done@[0]@);
            assert(entries[1] == done@[1]@);
            assert(done@.len() == entries.len());
            let after = storage.state();
            assert(after.accounts[input.from_account_id].version == successor(
                from.version,
                from_stamp.version,
            ));
            assert(after.accounts[input.to_account_id].version == successor(
                to->0.version,
                to_stamp.version,
            ));
        }
    }
    r
}

/// The transfer operation over a store.
pub struct TransferUseCase<S: Storage> {
    pub storage: S,
}

impl<S: Storage> TransferUseCase<S> {
    /// The operation over `storage`.
    pub fn new(storage: S) -> (u: Self)
        ensures
            u.storage == storage,
    {
        TransferUseCase { storage }
    }
}

impl<S: Storage> UseCase<TransferTransactionDTO, Vec<Transaction>> for TransferUseCase<S> {
    /// Runs [`transfer`] on the store of this use case.
    fn execute(&mut self, input: TransferTransactionDTO) -> (r: Result<Vec<Transaction>, LedgerError>)
        ensures
            final(self).storage.reliable() == old(self).storage.reliable(),
            transfer_outcome(
                old(self).storage.state(),
                final(self).storage.state(),
                old(self).storage.reliable(),
                input,
                r,
            ),
    {
        transfer(&mut self.storage, input)
    }
}

} // verus!
