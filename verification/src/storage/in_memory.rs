//! The reference store: everything in process memory.

use std::collections::HashMap;
use vstd::prelude::*;

use crate::error::LedgerError;
use crate::ledger::{
    account_seq_views, filed, transaction_views, update_views, AccountUpdate, Ledger,
};
use crate::model::account::{Account, AccountView};
use crate::model::transaction::Transaction;
use crate::storage::Storage;

verus! {

/// A store held in memory. It is always reachable, and a caller that holds it
/// mutably is by construction the only one writing.
pub struct InMemoryStorage {
    accounts: HashMap<u128, Account>,
    transactions: Vec<Transaction>,
}

/// The accounts of a map, as views.
spec fn account_views(accounts: Map<u128, Account>) -> Map<u128, AccountView> {
    Map::new(|k: u128| accounts.contains_key(k), |k: u128| accounts[k]@)
}

/// Every account of the map is filed under its own identifier.
spec fn keyed(accounts: Map<u128, Account>) -> bool {
    forall|k: u128| #[trigger] accounts.contains_key(k) ==> accounts[k].uuid == k
}

/// Whether every update of the batch meets its condition on `accounts` and no
/// account is named twice.
fn batch_admitted(accounts: &HashMap<u128, Account>, updates: &Vec<AccountUpdate>) -> (ok: bool)
    ensures
        ok == (Ledger { accounts: account_views(accounts@), transactions: Seq::empty() }).admits(
            update_views(updates@),
        ),
{
    broadcast use vstd::std_specs::hash::group_hash_axioms;

    let ghost ledger = Ledger { accounts: account_views(accounts@), transactions: Seq::empty() };
    let ghost views = update_views(updates@);
    let mut i: usize = 0;
    while i < updates.len()
        invariant
            i <= updates.len(),
            ledger == (Ledger { accounts: account_views(accounts@), transactions: Seq::empty() }),
            views == update_views(updates@),
            forall|a: int| 0 <= a < i ==> ledger.meets(#[trigger] views[a]),
            forall|a: int, b: int|
                0 <= a < b < i ==> (#[trigger] views[a]).account.uuid != (
                #[trigger] views[b]).account.uuid,
        decreases updates.len() - i,
    {
        let update = &updates[i];
        assert(views[i as int] == update@);
        match accounts.get(&update.account.uuid) {
            None => {
                assert(!ledger.meets(views[i as int]));
                return false;
            },
            Some(stored) => {
                if stored.version != update.expected_version {
                    assert(!ledger.meets(views[i as int]));
                    return false;
                }
            },
        }
        let mut j: usize = 0;
        while j < i
            invariant
                j <= i < updates.len(),
                views == update_views(updates@),
                forall|a: int|
                    0 <= a < j ==> (#[trigger] views[a]).account.uuid != views[i as int].account.uuid,
            decreases i - j,
        {
            if updates[j].account.uuid == updates[i].account.uuid {
                assert(views[j as int].account.uuid == views[i as int].account.uuid);
                return false;
            }
            j += 1;
        }
        i += 1;
    }
    true
}

impl InMemoryStorage {
    #[verifier::type_invariant]
    spec fn filed_by_identifier(self) -> bool {
        keyed(self.accounts@)
    }

    /// An empty store.
    pub fn new() -> (s: InMemoryStorage)
        ensures
            s.state() == Ledger::empty(),
    {
        let s = InMemoryStorage { accounts: HashMap::new(), transactions: Vec::new() };
        assert(s.state().accounts =~= Map::empty());
        assert(s.state().transactions =~= Seq::empty());
        s
    }
}

impl InMemoryStorage {
    /// Replaces the accounts of the store by those given, each filed under its
    /// own identifier. The record of transactions stays.
    pub fn set_accounts(&mut self, accounts: Vec<Account>)
        ensures
            final(self).state().accounts == filed(account_seq_views(accounts@)),
            final(self).state().transactions == old(self).state().transactions,
    {
        broadcast use vstd::std_specs::hash::group_hash_axioms;

        let ghost views = account_seq_views(accounts@);
        let mut filing: HashMap<u128, Account> = HashMap::new();
        assert(account_views(filing@) =~= filed(views.take(0)));
        let mut i: usize = 0;
        while i < accounts.len()
            invariant
                i <= accounts.len(),
                views == account_seq_views(accounts@),
                keyed(filing@),
                account_views(filing@) == filed(views.take(i as int)),
            decreases accounts.len() - i,
        {
            let account = accounts[i].clone();
            let ghost earlier = account_views(filing@);
            filing.insert(account.uuid, account);
            proof {
                let upto = views.take(i as int + 1);
                assert(upto.drop_last() =~= views.take(i as int));
                assert(upto.last() == views[i as int]);
                assert(account_views(filing@) =~= earlier.insert(
                    views[i as int].uuid,
                    views[i as int],
                ));
            }
            i += 1;
        }
        assert(views.take(i as int) =~= views);
        std::mem::swap(&mut self.accounts, &mut filing);
    }

    /// Every transaction the store has applied, oldest first.
    pub fn transactions(&self) -> (log: Vec<Transaction>)
        ensures
            transaction_views(log@) == self.state().transactions,
    {
        let mut log: Vec<Transaction> = Vec::new();
        let mut i: usize = 0;
        while i < self.transactions.len()
            invariant
                i <= self.transactions.len(),
                transaction_views(log@) == transaction_views(self.transactions@).take(i as int),
            decreases self.transactions.len() - i,
        {
            let ghost earlier = transaction_views(log@);
            log.push(self.transactions[i].clone());
            proof {
                let all = transaction_views(self.transactions@);
                assert(transaction_views(log@) =~= earlier.push(all[i as int]));
                assert(all.take(i as int + 1) =~= all.take(i as int).push(all[i as int]));
            }
            i += 1;
        }
        assert(transaction_views(self.transactions@).take(i as int) =~= transaction_views(
            self.transactions@,
        ));
        log
    }
}

impl Storage for InMemoryStorage {
    closed spec fn state(&self) -> Ledger {
        Ledger {
            accounts: account_views(self.accounts@),
            transactions: transaction_views(self.transactions@),
        }
    }

    open spec fn reliable(&self) -> bool {
        true
    }

    fn get_account(&self, uuid: u128) -> (r: Result<Option<Account>, LedgerError>) {
        broadcast use vstd::std_specs::hash::group_hash_axioms;

        proof {
            use_type_invariant(self);
        }
        match self.accounts.get(&uuid) {
            Some(a) => Ok(Some(a.clone())),
            None => Ok(None),
        }
    }

    fn save_account(&mut self, account: Account) -> (r: Result<(), LedgerError>) {
        broadcast use vstd::std_specs::hash::group_hash_axioms;

        proof {
            use_type_invariant(&*self);
        }
        let ghost before = self.state();
        let ghost written = account@;
        let mut accounts: HashMap<u128, Account> = HashMap::new();
        std::mem::swap(&mut self.accounts, &mut accounts);
        accounts.insert(account.uuid, account);
        std::mem::swap(&mut self.accounts, &mut accounts);
        assert(self.state().accounts =~= before.with_account(written).accounts);
        Ok(())
    }

    fn atomic_apply(
        &mut self,
        new_transactions: Vec<Transaction>,
        updated_accounts: Vec<AccountUpdate>,
    ) -> (r: Result<Vec<Transaction>, LedgerError>) {
        broadcast use vstd::std_specs::hash::group_hash_axioms;

        proof {
            use_type_invariant(&*self);
        }
        let ghost before = self.state();
        let ghost views = update_views(updated_accounts@);
        let ghost entries = transaction_views(new_transactions@);
        if !batch_admitted(&self.accounts, &updated_accounts) {
            return Err(LedgerError::VersionConflict);
        }
        let mut accounts: HashMap<u128, Account> = HashMap::new();
        std::mem::swap(&mut self.accounts, &mut accounts);
        let mut i: usize = 0;
        while i < updated_accounts.len()
            invariant
                i <= updated_accounts.len(),
                views == update_views(updated_accounts@),
                keyed(accounts@),
                account_views(accounts@) == Ledger::updated(before.accounts, views.take(i as int)),
            decreases updated_accounts.len() - i,
        {
            let account = updated_accounts[i].account.clone();
            let ghost earlier = account_views(accounts@);
            accounts.insert(account.uuid, account);
            proof {
                let upto = views.take(i as int + 1);
                assert(upto.drop_last() =~= views.take(i as int));
                assert(upto.last() == views[i as int]);
                assert(account_views(accounts@) =~= earlier.insert(
                    views[i as int].account.uuid,
                    views[i as int].account,
                ));
            }
            i += 1;
        }
        assert(views.take(i as int) =~= views);
        std::mem::swap(&mut self.accounts, &mut accounts);
        let mut log: Vec<Transaction> = Vec::new();
        std::mem::swap(&mut self.transactions, &mut log);
        let mut j: usize = 0;
        while j < new_transactions.len()
            invariant
                j <= new_transactions.len(),
                entries == transaction_views(new_transactions@),
                transaction_views(log@) == before.transactions + entries.take(j as int),
            decreases new_transactions.len() - j,
        {
            let ghost earlier = transaction_views(log@);
            log.push(new_transactions[j].clone());
            proof {
                assert(transaction_views(log@) =~= earlier.push(entries[j as int]));
                assert(entries.take(j as int + 1) =~= entries.take(j as int).push(entries[j as int]));
                assert(before.transactions + entries.take(j as int + 1) =~= (before.transactions
                    + entries.take(j as int)).push(entries[j as int]));
            }
            j += 1;
        }
        assert(entries.take(j as int) =~= entries);
        std::mem::swap(&mut self.transactions, &mut log);
        Ok(new_transactions)
    }
}

} // verus!
