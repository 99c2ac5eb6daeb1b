//! What holds of every ledger that is only ever changed by opening accounts and
//! posting transactions.

use vstd::prelude::*;

use crate::ledger::{entries_total, Ledger};
use crate::model::account::AccountView;
use crate::model::transaction::TransactionView;

verus! {

/// One more transaction adds its amount to the total of its own account and to
/// no other.
pub proof fn lemma_total_after_entry(
    entries: Seq<TransactionView>,
    entry: TransactionView,
    account_id: u128,
)
    ensures
        entries_total(entries.push(entry), account_id) == entries_total(entries, account_id) + (
        if entry.account_id == account_id {
            entry.amount
        } else {
            0
        }),
{
    assert(entries.push(entry).drop_last() =~= entries);
}

/// An account that no transaction names has a total of zero.
pub proof fn lemma_total_of_stranger(ledger: Ledger, account_id: u128)
    requires
        ledger.grounded(),
        !ledger.accounts.contains_key(account_id),
    ensures
        entries_total(ledger.transactions, account_id) == 0,
{
    lemma_total_without(ledger.transactions, account_id);
}

proof fn lemma_total_without(entries: Seq<TransactionView>, account_id: u128)
    requires
        forall|i: int| 0 <= i < entries.len() ==> (#[trigger] entries[i]).account_id != account_id,
    ensures
        entries_total(entries, account_id) == 0,
    decreases entries.len(),
{
    if entries.len() > 0 {
        lemma_total_without(entries.drop_last(), account_id);
    }
}

/// Posting a transaction to an account that exists keeps every account filed
/// under its own identifier.
pub proof fn lemma_posting_keeps_keys(ledger: Ledger, entry: TransactionView, version: u128)
    requires
        ledger.well_keyed(),
        ledger.accounts.contains_key(entry.account_id),
    ensures
        ledger.posted(entry, version).well_keyed(),
        ledger.posted(entry, version).accounts.dom() == ledger.accounts.dom(),
{
    assert(ledger.posted(entry, version).accounts.dom() =~= ledger.accounts.dom());
}

/// The empty ledger is consistent.
pub proof fn law_empty_ledger_is_consistent()
    ensures
        Ledger::empty().consistent(),
{
}

/// Opening an account with balance 0.00 under an identifier that is not taken
/// keeps the ledger consistent.
pub proof fn law_opening_keeps_consistency(ledger: Ledger, account: AccountView)
    requires
        ledger.consistent(),
        !ledger.accounts.contains_key(account.uuid),
        account.balance == 0,
    ensures
        ledger.with_account(account).consistent(),
{
    lemma_total_of_stranger(ledger, account.uuid);
}

/// Posting a transaction to an account that exists keeps the ledger
/// consistent: the balance of that account moves by the amount, and so does
/// the sum of its transactions.
pub proof fn law_posting_keeps_consistency(ledger: Ledger, entry: TransactionView, version: u128)
    requires
        ledger.consistent(),
        ledger.accounts.contains_key(entry.account_id),
    ensures
        ledger.posted(entry, version).consistent(),
{
    let after = ledger.posted(entry, version);
    assert forall|k: u128| #[trigger] after.accounts.contains_key(k) implies after.accounts[k].balance
        == entries_total(after.transactions, k) by {
        lemma_total_after_entry(ledger.transactions, entry, k);
    }
}

/// One posting: a transaction and the version its account takes with it.
pub struct Posting {
    pub entry: TransactionView,
    pub version: u128,
}

/// The ledger after a run of postings, in order.
pub open spec fn posted_each(ledger: Ledger, postings: Seq<Posting>) -> Ledger
    decreases postings.len(),
{
    if postings.len() == 0 {
        ledger
    } else {
        posted_each(ledger, postings.drop_last()).posted(
            postings.last().entry,
            postings.last().version,
        )
    }
}

/// After any run of postings to accounts that exist, a ledger that was
/// consistent is consistent: for every account, the balance is the sum of all
/// the transactions applied to it. No account appears or disappears on the
/// way.
pub proof fn law_balances_are_sums_of_entries(ledger: Ledger, postings: Seq<Posting>)
    requires
        ledger.consistent(),
        forall|i: int|
            0 <= i < postings.len() ==> ledger.accounts.contains_key(
                (#[trigger] postings[i]).entry.account_id,
            ),
    ensures
        posted_each(ledger, postings).consistent(),
        posted_each(ledger, postings).accounts.dom() == ledger.accounts.dom(),
        forall|k: u128| #[trigger]
            ledger.accounts.contains_key(k) ==> posted_each(ledger, postings).accounts[k].balance
                == entries_total(posted_each(ledger, postings).transactions, k),
    decreases postings.len(),
{
    if postings.len() > 0 {
        let earlier = postings.drop_last();
        assert forall|i: int| 0 <= i < earlier.len() implies ledger.accounts.contains_key(
            (#[trigger] earlier[i]).entry.account_id,
        ) by {
            assert(earlier[i] == postings[i]);
        }
        law_balances_are_sums_of_entries(ledger, earlier);
        let last = postings[postings.len() - 1];
        let before = posted_each(ledger, earlier);
        assert(before.accounts.contains_key(last.entry.account_id));
        law_posting_keeps_consistency(before, last.entry, last.version);
        lemma_posting_keeps_keys(before, last.entry, last.version);
    }
}

} // verus!
