//! The mathematical model of a ledger: what a store holds, and what an atomic
//! batch of version-conditioned writes does to it.

use vstd::prelude::*;

use crate::model::account::{Account, AccountView};
use crate::model::transaction::{Transaction, TransactionView};

verus! {

/// One account write of an atomic batch: the new state of the account, to be
/// stored only if the account still has `expected_version`.
#[derive(Debug, PartialEq, Eq)]
pub struct AccountUpdate {
    pub account: Account,
    pub expected_version: u128,
}

/// An account update as plain mathematical values.
pub struct AccountUpdateView {
    pub account: AccountView,
    pub expected_version: u128,
}

impl View for AccountUpdate {
    type V = AccountUpdateView;

    open spec fn view(&self) -> AccountUpdateView {
        AccountUpdateView { account: self.account@, expected_version: self.expected_version }
    }
}

impl Clone for AccountUpdate {
    fn clone(&self) -> (r: Self)
        ensures
            r == *self,
    {
        AccountUpdate { account: self.account.clone(), expected_version: self.expected_version }
    }
}

/// The views of a sequence of transactions, in order.
pub open spec fn transaction_views(v: Seq<Transaction>) -> Seq<TransactionView> {
    v.map_values(|t: Transaction| t@)
}

/// The views of a sequence of account updates, in order.
pub open spec fn update_views(v: Seq<AccountUpdate>) -> Seq<AccountUpdateView> {
    v.map_values(|u: AccountUpdate| u@)
}

/// The sum of the amounts of the transactions against `account_id`.
pub open spec fn entries_total(entries: Seq<TransactionView>, account_id: u128) -> int
    decreases entries.len(),
{
    if entries.len() == 0 {
        0
    } else if entries.last().account_id == account_id {
        entries_total(entries.drop_last(), account_id) + entries.last().amount
    } else {
        entries_total(entries.drop_last(), account_id)
    }
}

/// The views of a sequence of accounts, in order.
pub open spec fn account_seq_views(v: Seq<Account>) -> Seq<AccountView> {
    v.map_values(|a: Account| a@)
}

/// The accounts of a sequence, each filed under its own identifier; of two
/// with one identifier the later stays.
pub open spec fn filed(accounts: Seq<AccountView>) -> Map<u128, AccountView>
    decreases accounts.len(),
{
    if accounts.len() == 0 {
        Map::empty()
    } else {
        filed(accounts.drop_last()).insert(accounts.last().uuid, accounts.last())
    }
}

/// What a store holds: the accounts by identifier, and every transaction ever
/// applied, oldest first.
pub struct Ledger {
    pub accounts: Map<u128, AccountView>,
    pub transactions: Seq<TransactionView>,
}

impl Ledger {
    /// The ledger with no account and no transaction.
    pub open spec fn empty() -> Ledger {
        Ledger { accounts: Map::empty(), transactions: Seq::empty() }
    }

    /// Every account is filed under its own identifier.
    pub open spec fn well_keyed(self) -> bool {
        forall|k: u128| #[trigger] self.accounts.contains_key(k) ==> self.accounts[k].uuid == k
    }

    /// The ledger after an unconditional write of `account`.
    pub open spec fn with_account(self, account: AccountView) -> Ledger {
        Ledger { accounts: self.accounts.insert(account.uuid, account), ..self }
    }

    /// The condition of one update holds: the account exists and still has the
    /// version the update expects.
    pub open spec fn meets(self, update: AccountUpdateView) -> bool {
        &&& self.accounts.contains_key(update.account.uuid)
        &&& self.accounts[update.account.uuid].version == update.expected_version
    }

    /// Whether a batch may be applied: every update meets its condition, and no
    /// account is written twice (the first write would retire the version the
    /// second one expects).
    pub open spec fn admits(self, updates: Seq<AccountUpdateView>) -> bool {
        &&& forall|i: int| 0 <= i < updates.len() ==> self.meets(#[trigger] updates[i])
        &&& forall|i: int, j: int|
            0 <= i < j < updates.len() ==> (#[trigger] updates[i]).account.uuid != (
            #[trigger] updates[j]).account.uuid
    }

    /// Every transaction on record is against an account that exists.
    pub open spec fn grounded(self) -> bool {
        forall|i: int|
            0 <= i < self.transactions.len() ==> self.accounts.contains_key(
                (#[trigger] self.transactions[i]).account_id,
            )
    }

    /// Every balance is the sum of the transactions against its account.
    pub open spec fn balanced(self) -> bool {
        forall|k: u128| #[trigger]
            self.accounts.contains_key(k) ==> self.accounts[k].balance == entries_total(
                self.transactions,
                k,
            )
    }

    /// The record justifies the balances: the ledger is well keyed, grounded
    /// and balanced.
    pub open spec fn consistent(self) -> bool {
        self.well_keyed() && self.grounded() && self.balanced()
    }

    /// The account stored under `uuid`, if any.
    pub open spec fn account(self, uuid: u128) -> Option<AccountView> {
        if self.accounts.contains_key(uuid) {
            Some(self.accounts[uuid])
        } else {
            None
        }
    }

    /// The ledger after one transaction was posted to its account: the balance
    /// moves by the amount, the time of the last update becomes that of the
    /// transaction, the version becomes `version`, and the transaction joins
    /// the record. Nothing else changes.
    pub open spec fn posted(self, entry: TransactionView, version: u128) -> Ledger {
        let account = self.accounts[entry.account_id];
        Ledger {
            accounts: self.accounts.insert(
                entry.account_id,
                AccountView {
                    balance: account.balance + entry.amount,
                    last_updated_at: entry.created_at,
                    version,
                    ..account
                },
            ),
            transactions: self.transactions.push(entry),
        }
    }

    /// The accounts after the writes of `updates`, in order.
    pub open spec fn updated(
        accounts: Map<u128, AccountView>,
        updates: Seq<AccountUpdateView>,
    ) -> Map<u128, AccountView>
        decreases updates.len(),
    {
        if updates.len() == 0 {
            accounts
        } else {
            Self::updated(accounts, updates.drop_last()).insert(
                updates.last().account.uuid,
                updates.last().account,
            )
        }
    }

    /// The ledger after a batch took effect: the transactions appended, the
    /// accounts updated.
    pub open spec fn applied(
        self,
        transactions: Seq<TransactionView>,
        updates: Seq<AccountUpdateView>,
    ) -> Ledger {
        Ledger {
            accounts: Self::updated(self.accounts, updates),
            transactions: self.transactions + transactions,
        }
    }
}

} // verus!
