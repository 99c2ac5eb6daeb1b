//! Requests that race: each reads its accounts at some moment, prepares its
//! batch, and has it applied at a later moment, with the writes of others in
//! between. The version condition of the atomic apply is what keeps the ledger
//! right in every such interleaving.

use vstd::prelude::*;

use crate::error::LedgerError;
use crate::laws::consistency::{law_posting_keeps_consistency, lemma_posting_keeps_keys};
use crate::laws::serial::lemma_fits;
use crate::ledger::Ledger;
use crate::model::account::AccountView;
use crate::plan::{
    deposit_plan, leg_entry, leg_update, lemma_single_leg_posts, lemma_two_legs_post, single_leg,
    transfer_plan, withdrawal_plan, BatchView, Stamp,
};
use crate::token::{lemma_successor_differs, successor};

verus! {

/// Of two writers that prepared a movement from the same reading of an
/// account, at most one commits: once the batch of the first is applied, the
/// ledger no longer admits the batch of the second, whatever either of them
/// drew.
pub proof fn law_second_writer_is_refused(
    ledger: Ledger,
    read: AccountView,
    first_key: Seq<char>,
    first_amount: int,
    first_stamp: Stamp,
    second_key: Seq<char>,
    second_amount: int,
    second_stamp: Stamp,
)
    requires
        ledger.account(read.uuid) == Some(read),
    ensures
        ({
            let first = single_leg(read, first_key, first_amount, first_stamp);
            let second = single_leg(read, second_key, second_amount, second_stamp);
            &&& ledger.admits(first.updates)
            &&& !ledger.applied(first.transactions, first.updates).admits(second.updates)
        }),
{
    let first = single_leg(read, first_key, first_amount, first_stamp);
    let second = single_leg(read, second_key, second_amount, second_stamp);
    lemma_single_leg_posts(ledger, read, first_key, first_amount, first_stamp);
    lemma_successor_differs(read.version, first_stamp.version);
    let after = ledger.applied(first.transactions, first.updates);
    assert(!after.meets(second.updates[0]));
}

/// A batch that expects a version its account no longer has is not admitted.
pub proof fn law_stale_batch_is_refused(
    ledger: Ledger,
    read: AccountView,
    idempotency_key: Seq<char>,
    amount: int,
    stamp: Stamp,
)
    requires
        ledger.accounts.contains_key(read.uuid) ==> ledger.accounts[read.uuid].version
            != read.version,
    ensures
        !ledger.admits(single_leg(read, idempotency_key, amount, stamp).updates),
{
    let batch = single_leg(read, idempotency_key, amount, stamp);
    assert(!ledger.meets(batch.updates[0]));
}

/// The states a ledger went through, oldest first, are coherent when every one
/// is well keyed and a version never stood for two different states of an
/// account.
pub open spec fn coherent(history: Seq<Ledger>) -> bool {
    &&& history.len() > 0
    &&& forall|i: int| 0 <= i < history.len() ==> (#[trigger] history[i]).well_keyed()
    &&& forall|i: int, j: int, k: u128|
        0 <= i < history.len() && 0 <= j < history.len() && (#[trigger] history[i].accounts.contains_key(
            k,
        )) && (#[trigger] history[j].accounts.contains_key(k)) && history[i].accounts[k].version
            == history[j].accounts[k].version ==> history[i].accounts[k] == history[j].accounts[k]
}

/// No state of the history holds the account `account_id` under `version`.
pub open spec fn unused(history: Seq<Ledger>, account_id: u128, version: u128) -> bool {
    forall|j: int|
        0 <= j < history.len() && (#[trigger] history[j].accounts.contains_key(account_id))
            ==> history[j].accounts[account_id].version != version
}

/// One racing request: which movement, and the moments of the history at which
/// it read its accounts.
pub enum Attempt {
    Deposit { account_id: u128, idempotency_key: Seq<char>, amount: int, read_at: int, stamp: Stamp },
    Withdrawal {
        account_id: u128,
        idempotency_key: Seq<char>,
        amount: int,
        read_at: int,
        stamp: Stamp,
    },
    Transfer {
        from: u128,
        to: u128,
        idempotency_key: Seq<char>,
        amount: int,
        from_read_at: int,
        to_read_at: int,
        from_stamp: Stamp,
        to_stamp: Stamp,
    },
}

impl Attempt {
    /// The request read states that the history holds.
    pub open spec fn reads_within(self, history: Seq<Ledger>) -> bool {
        match self {
            Attempt::Deposit { read_at, .. } => 0 <= read_at < history.len(),
            Attempt::Withdrawal { read_at, .. } => 0 <= read_at < history.len(),
            Attempt::Transfer { from_read_at, to_read_at, .. } => 0 <= from_read_at
                < history.len() && 0 <= to_read_at < history.len(),
        }
    }

    /// The batch the rules give for what the request read, or their refusal.
    pub open spec fn plan(self, history: Seq<Ledger>) -> Result<BatchView, LedgerError> {
        match self {
            Attempt::Deposit { account_id, idempotency_key, amount, read_at, stamp } => deposit_plan(
                idempotency_key,
                amount,
                history[read_at].account(account_id),
                stamp,
            ),
            Attempt::Withdrawal {
                account_id,
                idempotency_key,
                amount,
                read_at,
                stamp,
            } => withdrawal_plan(
                idempotency_key,
                amount,
                history[read_at].account(account_id),
                stamp,
            ),
            Attempt::Transfer {
                from,
                to,
                idempotency_key,
                amount,
                from_read_at,
                to_read_at,
                from_stamp,
                to_stamp,
            } => transfer_plan(
                idempotency_key,
                amount,
                history[from_read_at].account(from),
                history[to_read_at].account(to),
                from_stamp,
                to_stamp,
            ),
        }
    }

    /// Every version the request would install was never used for its account.
    pub open spec fn draws_fresh(self, history: Seq<Ledger>) -> bool {
        match self {
            Attempt::Deposit { account_id, read_at, stamp, .. } => unused(
                history,
                account_id,
                successor(history[read_at].accounts[account_id].version, stamp.version),
            ),
            Attempt::Withdrawal { account_id, read_at, stamp, .. } => unused(
                history,
                account_id,
                successor(history[read_at].accounts[account_id].version, stamp.version),
            ),
            Attempt::Transfer { from, to, from_read_at, to_read_at, from_stamp, to_stamp, .. } => {
                &&& unused(
                    history,
                    from,
                    successor(history[from_read_at].accounts[from].version, from_stamp.version),
                )
                &&& unused(
                    history,
                    to,
                    successor(history[to_read_at].accounts[to].version, to_stamp.version),
                )
            },
        }
    }
}

/// The ledger after the store served the apply of one request: the batch took
/// effect if the rules gave one and the latest state admits it; otherwise
/// nothing changed.
pub open spec fn served(history: Seq<Ledger>, attempt: Attempt) -> Ledger {
    let latest = history.last();
    match attempt.plan(history) {
        Ok(batch) => if latest.admits(batch.updates) {
            latest.applied(batch.transactions, batch.updates)
        } else {
            latest
        },
        Err(_) => latest,
    }
}

/// The history after the store served the applies of `attempts` in order.
pub open spec fn raced(history: Seq<Ledger>, attempts: Seq<Attempt>) -> Seq<Ledger>
    decreases attempts.len(),
{
    if attempts.len() == 0 {
        history
    } else {
        let earlier = raced(history, attempts.drop_last());
        earlier.push(served(earlier, attempts.last()))
    }
}

/// Every request of the run read states that existed when its apply was
/// served, and every batch that took effect installed versions that were new
/// for their accounts.
pub open spec fn orderly(history: Seq<Ledger>, attempts: Seq<Attempt>) -> bool
    decreases attempts.len(),
{
    if attempts.len() == 0 {
        true
    } else {
        let earlier = raced(history, attempts.drop_last());
        &&& orderly(history, attempts.drop_last())
        &&& attempts.last().reads_within(earlier)
        &&& served(earlier, attempts.last()) != earlier.last() ==> attempts.last().draws_fresh(
            earlier,
        )
    }
}

/// No balance is negative.
pub open spec fn solvent(ledger: Ledger) -> bool {
    forall|k: u128| #[trigger] ledger.accounts.contains_key(k) ==> ledger.accounts[k].balance >= 0
}

/// In a coherent history, a reading whose version the latest state still holds
/// is the latest state of that account: nothing was written in between.
pub proof fn lemma_admitted_reading_is_current(history: Seq<Ledger>, read_at: int, account_id: u128)
    requires
        coherent(history),
        0 <= read_at < history.len(),
        history[read_at].accounts.contains_key(account_id),
        history.last().accounts.contains_key(account_id),
        history.last().accounts[account_id].version == history[read_at].accounts[account_id].version,
    ensures
        history.last().account(account_id) == history[read_at].account(account_id),
        history[read_at].accounts[account_id].uuid == account_id,
{
    let j = history.len() - 1;
    assert(history[read_at].accounts.contains_key(account_id) && history[j].accounts.contains_key(
        account_id,
    ));
    assert(history[read_at].well_keyed());
}

/// Pushing a state that differs from the latest one only in accounts that took
/// unused versions keeps the history coherent.
proof fn lemma_push_keeps_coherence(history: Seq<Ledger>, next: Ledger)
    requires
        coherent(history),
        next.well_keyed(),
        forall|k: u128| #[trigger]
            next.accounts.contains_key(k) ==> (history.last().accounts.contains_key(k)
                && history.last().accounts[k] == next.accounts[k]) || unused(
                history,
                k,
                next.accounts[k].version,
            ),
    ensures
        coherent(history.push(next)),
{
    let longer = history.push(next);
    let n = history.len() as int;
    assert forall|i: int, j: int, k: u128|
        0 <= i < longer.len() && 0 <= j < longer.len() && (#[trigger] longer[i].accounts.contains_key(
            k,
        )) && (#[trigger] longer[j].accounts.contains_key(k)) && longer[i].accounts[k].version
            == longer[j].accounts[k].version implies longer[i].accounts[k]
        == longer[j].accounts[k] by {
        if i < n && j < n {
            assert(history[i].accounts.contains_key(k) && history[j].accounts.contains_key(k));
        } else if i == n && j == n {
        } else {
            let old = if i < n {
                i
            } else {
                j
            };
            assert(history[old].accounts.contains_key(k));
            assert(next.accounts.contains_key(k));
            if history.last().accounts.contains_key(k) && history.last().accounts[k]
                == next.accounts[k] {
                assert(history[n - 1].accounts.contains_key(k) && history[old].accounts.contains_key(
                    k,
                ));
            } else {
                assert(unused(history, k, next.accounts[k].version));
            }
        }
    }
    assert forall|i: int| 0 <= i < longer.len() implies (#[trigger] longer[i]).well_keyed() by {
        if i < n {
            assert(history[i].well_keyed());
        }
    }
}

/// One step of a race. However long ago the request read its accounts, and
/// whatever was written since: if the history is coherent and a batch that
/// takes effect installs fresh versions, serving the apply leaves a coherent
/// history, a consistent ledger that was consistent, and a solvent ledger that
/// was solvent.
pub proof fn law_one_apply_is_sound(history: Seq<Ledger>, attempt: Attempt)
    requires
        coherent(history),
        attempt.reads_within(history),
        served(history, attempt) != history.last() ==> attempt.draws_fresh(history),
    ensures
        coherent(history.push(served(history, attempt))),
        history.last().consistent() ==> served(history, attempt).consistent(),
        solvent(history.last()) ==> solvent(served(history, attempt)),
{
    let latest = history.last();
    let next = served(history, attempt);
    assert(latest.well_keyed());
    if next == latest {
        lemma_push_keeps_coherence(history, next);
    } else {
        let batch = attempt.plan(history)->Ok_0;
        match attempt {
            Attempt::Deposit { account_id, idempotency_key, amount, read_at, stamp } => {
                lemma_one_leg_is_sound(history, account_id, idempotency_key, amount, read_at, stamp);
            },
            Attempt::Withdrawal { account_id, idempotency_key, amount, read_at, stamp } => {
                lemma_one_leg_is_sound(
                    history,
                    account_id,
                    idempotency_key,
                    -amount,
                    read_at,
                    stamp,
                );
            },
            Attempt::Transfer {
                from,
                to,
                idempotency_key,
                amount,
                from_read_at,
                to_read_at,
                from_stamp,
                to_stamp,
            } => {
                let source = history[from_read_at].accounts[from];
                let destination = history[to_read_at].accounts[to];
                assert(batch.updates[0] == leg_update(source, -amount, from_stamp));
                assert(batch.updates[1] == leg_update(destination, amount, to_stamp));
                assert(history[from_read_at].well_keyed() && history[to_read_at].well_keyed());
                assert(latest.meets(batch.updates[0]) && latest.meets(batch.updates[1]));
                lemma_admitted_reading_is_current(history, from_read_at, from);
                lemma_admitted_reading_is_current(history, to_read_at, to);
                lemma_two_legs_post(
                    latest,
                    source,
                    destination,
                    idempotency_key,
                    amount,
                    from_stamp,
                    to_stamp,
                );
                let debit = leg_entry(source, idempotency_key, -amount, from_stamp);
                let credit = leg_entry(destination, idempotency_key, amount, to_stamp);
                let from_version = successor(source.version, from_stamp.version);
                let to_version = successor(destination.version, to_stamp.version);
                let debited = latest.posted(debit, from_version);
                assert(next == debited.posted(credit, to_version));
                lemma_posting_keeps_keys(latest, debit, from_version);
                lemma_posting_keeps_keys(debited, credit, to_version);
                if latest.consistent() {
                    law_posting_keeps_consistency(latest, debit, from_version);
                    law_posting_keeps_consistency(debited, credit, to_version);
                }
                lemma_push_keeps_coherence(history, next);
            },
        }
    }
}

/// The step of a race for a movement on one account, by the signed amount it
/// posts.
proof fn lemma_one_leg_is_sound(
    history: Seq<Ledger>,
    account_id: u128,
    idempotency_key: Seq<char>,
    amount: int,
    read_at: int,
    stamp: Stamp,
)
    requires
        coherent(history),
        0 <= read_at < history.len(),
        history[read_at].accounts.contains_key(account_id),
        history[read_at].accounts[account_id].balance + amount >= 0 || amount >= 0,
        unused(
            history,
            account_id,
            successor(history[read_at].accounts[account_id].version, stamp.version),
        ),
        history.last().admits(
            single_leg(history[read_at].accounts[account_id], idempotency_key, amount, stamp).updates,
        ),
    ensures
        ({
            let batch = single_leg(
                history[read_at].accounts[account_id],
                idempotency_key,
                amount,
                stamp,
            );
            let next = history.last().applied(batch.transactions, batch.updates);
            &&& coherent(history.push(next))
            &&& history.last().consistent() ==> next.consistent()
            &&& solvent(history.last()) ==> solvent(next)
            &&& history.last().account(account_id) == history[read_at].account(account_id)
            &&& next == history.last().posted(
                leg_entry(history[read_at].accounts[account_id], idempotency_key, amount, stamp),
                successor(history[read_at].accounts[account_id].version, stamp.version),
            )
        }),
{
    let latest = history.last();
    let read = history[read_at].accounts[account_id];
    let batch = single_leg(read, idempotency_key, amount, stamp);
    let next = latest.applied(batch.transactions, batch.updates);
    assert(history[read_at].well_keyed());
    assert(latest.well_keyed());
    assert(latest.meets(batch.updates[0]));
    lemma_admitted_reading_is_current(history, read_at, account_id);
    lemma_single_leg_posts(latest, read, idempotency_key, amount, stamp);
    let entry = leg_entry(read, idempotency_key, amount, stamp);
    let version = successor(read.version, stamp.version);
    lemma_posting_keeps_keys(latest, entry, version);
    if latest.consistent() {
        law_posting_keeps_consistency(latest, entry, version);
    }
    lemma_push_keeps_coherence(history, next);
}

/// No interleaving loses an update. Whatever the order in which the store
/// serves the applies of racing deposits, withdrawals and transfers, and
/// however stale the readings they were prepared from: as long as every
/// installed version is new for its account, the history stays coherent, a
/// consistent ledger stays consistent (every balance is the sum of the
/// transactions applied to its account), and a solvent ledger stays solvent (no
/// race overdraws an account).
pub proof fn law_races_lose_nothing(history: Seq<Ledger>, attempts: Seq<Attempt>)
    requires
        coherent(history),
        orderly(history, attempts),
    ensures
        coherent(raced(history, attempts)),
        history.last().consistent() ==> raced(history, attempts).last().consistent(),
        solvent(history.last()) ==> solvent(raced(history, attempts).last()),
    decreases attempts.len(),
{
    if attempts.len() > 0 {
        law_races_lose_nothing(history, attempts.drop_last());
        law_one_apply_is_sound(raced(history, attempts.drop_last()), attempts.last());
    }
}

/// Every request of the run is a deposit of `amount` into `account_id`.
pub open spec fn deposits_only(attempts: Seq<Attempt>, account_id: u128, amount: int) -> bool {
    forall|i: int|
        0 <= i < attempts.len() ==> (#[trigger] attempts[i] matches Attempt::Deposit {
            account_id: a,
            amount: x,
            ..
        } && a == account_id && x == amount)
}

/// Every request of the run is a withdrawal of `amount` from `account_id`.
pub open spec fn withdrawals_only(attempts: Seq<Attempt>, account_id: u128, amount: int) -> bool {
    forall|i: int|
        0 <= i < attempts.len() ==> (#[trigger] attempts[i] matches Attempt::Withdrawal {
            account_id: a,
            amount: x,
            ..
        } && a == account_id && x == amount)
}

/// Racing deposits add up. However the applies of deposits of one amount into
/// one account interleave, each one that commits adds one transaction and
/// exactly the amount: the balance ends higher by the amount times the number
/// that committed, and a request that did not commit changed nothing.
pub proof fn law_racing_deposits_add_up(
    history: Seq<Ledger>,
    account_id: u128,
    amount: int,
    attempts: Seq<Attempt>,
)
    requires
        coherent(history),
        orderly(history, attempts),
        deposits_only(attempts, account_id, amount),
        history.last().accounts.contains_key(account_id),
    ensures
        ({
            let first = history.last();
            let last = raced(history, attempts).last();
            let commits = last.transactions.len() - first.transactions.len();
            &&& coherent(raced(history, attempts))
            &&& last.accounts.contains_key(account_id)
            &&& 0 <= commits <= attempts.len()
            &&& last.accounts[account_id].balance == first.accounts[account_id].balance + commits
                * amount
        }),
    decreases attempts.len(),
{
    let first = history.last();
    if attempts.len() == 0 {
        assert(0 * amount == 0) by (nonlinear_arith);
    } else {
        let earlier = raced(history, attempts.drop_last());
        let attempt = attempts.last();
        assert(deposits_only(attempts.drop_last(), account_id, amount)) by {
            assert forall|i: int| 0 <= i < attempts.drop_last().len() implies (
            #[trigger] attempts.drop_last()[i] matches Attempt::Deposit { account_id: a, amount: x, .. }
                && a == account_id && x == amount) by {
                assert(attempts.drop_last()[i] == attempts[i]);
            }
        }
        law_racing_deposits_add_up(history, account_id, amount, attempts.drop_last());
        law_one_apply_is_sound(earlier, attempt);
        let latest = earlier.last();
        let next = served(earlier, attempt);
        let so_far = latest.transactions.len() - first.transactions.len();
        assert((so_far + 1) * amount == so_far * amount + amount) by (nonlinear_arith);
        assert(attempts[attempts.len() - 1] == attempt);
        match attempt {
            Attempt::Deposit { account_id: a, idempotency_key, amount: x, read_at, stamp } => {
                if next != latest {
                    lemma_one_leg_is_sound(earlier, account_id, idempotency_key, amount, read_at, stamp);
                }
            },
            _ => {},
        }
    }
}

/// Racing withdrawals never overdraw. However the applies of withdrawals of
/// one amount from one account interleave, each one that commits adds one
/// transaction and takes exactly the amount, and none commits against a
/// balance that does not hold the amount: from a balance `b` that is not
/// negative, at most `floor(b / amount)` commit, and the balance ends at `b`
/// less the amount times the number that committed.
pub proof fn law_racing_withdrawals_never_overdraw(
    history: Seq<Ledger>,
    account_id: u128,
    amount: int,
    attempts: Seq<Attempt>,
)
    requires
        coherent(history),
        orderly(history, attempts),
        withdrawals_only(attempts, account_id, amount),
        history.last().accounts.contains_key(account_id),
        history.last().accounts[account_id].balance >= 0,
        amount > 0,
    ensures
        ({
            let first = history.last();
            let last = raced(history, attempts).last();
            let commits = last.transactions.len() - first.transactions.len();
            &&& coherent(raced(history, attempts))
            &&& last.accounts.contains_key(account_id)
            &&& 0 <= commits <= attempts.len()
            &&& commits <= first.accounts[account_id].balance / amount
            &&& last.accounts[account_id].balance == first.accounts[account_id].balance - commits
                * amount
            &&& last.accounts[account_id].balance >= 0
        }),
    decreases attempts.len(),
{
    let first = history.last();
    let balance = first.accounts[account_id].balance;
    lemma_fits(balance, amount, 0);
    if attempts.len() == 0 {
        assert(0 * amount == 0) by (nonlinear_arith);
    } else {
        let earlier = raced(history, attempts.drop_last());
        let attempt = attempts.last();
        assert(withdrawals_only(attempts.drop_last(), account_id, amount)) by {
            assert forall|i: int| 0 <= i < attempts.drop_last().len() implies (
            #[trigger] attempts.drop_last()[i] matches Attempt::Withdrawal {
                account_id: a,
                amount: x,
                ..
            } && a == account_id && x == amount) by {
                assert(attempts.drop_last()[i] == attempts[i]);
            }
        }
        law_racing_withdrawals_never_overdraw(history, account_id, amount, attempts.drop_last());
        law_one_apply_is_sound(earlier, attempt);
        let latest = earlier.last();
        let next = served(earlier, attempt);
        let so_far = latest.transactions.len() - first.transactions.len();
        assert((so_far + 1) * amount == so_far * amount + amount) by (nonlinear_arith);
        lemma_fits(balance, amount, so_far);
        assert(attempts[attempts.len() - 1] == attempt);
        match attempt {
            Attempt::Withdrawal { account_id: a, idempotency_key, amount: x, read_at, stamp } => {
                if next != latest {
                    lemma_one_leg_is_sound(
                        earlier,
                        account_id,
                        idempotency_key,
                        -amount,
                        read_at,
                        stamp,
                    );
                }
            },
            _ => {},
        }
    }
}

} // verus!
