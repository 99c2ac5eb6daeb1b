//! Requests served one after the other: what a run of equal deposits or equal
//! withdrawals on one account comes to.

use vstd::prelude::*;

use crate::error::LedgerError;
use crate::laws::consistency::{law_posting_keeps_consistency, lemma_posting_keeps_keys};
use crate::ledger::Ledger;
use crate::model::transaction::TransactionView;
use crate::money::representable;
use crate::use_case::deposit::deposit_refusal;
use crate::use_case::withdraw::withdrawal_refusal;

verus! {

/// What differs from one submission of a request to the next: the idempotency
/// key the caller chose, and what the ledger drew for the transaction and for
/// the new version of the account.
pub struct Submission {
    pub idempotency_key: Seq<char>,
    pub id: u128,
    pub at: int,
    pub version: u128,
}

/// The ledger after one deposit was served: posted where the rules permit it,
/// untouched where they refuse.
pub open spec fn deposited(ledger: Ledger, account_id: u128, amount: int, s: Submission) -> Ledger {
    if deposit_refusal(ledger, account_id, amount) is None {
        ledger.posted(
            TransactionView::against(
                ledger.accounts[account_id],
                s.idempotency_key,
                amount,
                s.id,
                s.at,
            ),
            s.version,
        )
    } else {
        ledger
    }
}

/// The ledger after one withdrawal was served: posted where the rules permit
/// it, untouched where they refuse.
pub open spec fn withdrawn(ledger: Ledger, account_id: u128, amount: int, s: Submission) -> Ledger {
    if withdrawal_refusal(ledger, account_id, amount) is None {
        ledger.posted(
            TransactionView::against(
                ledger.accounts[account_id],
                s.idempotency_key,
                -amount,
                s.id,
                s.at,
            ),
            s.version,
        )
    } else {
        ledger
    }
}

/// The ledger after the deposits of `run` were served in order, each of
/// `amount` into `account_id`.
pub open spec fn deposited_each(
    ledger: Ledger,
    account_id: u128,
    amount: int,
    run: Seq<Submission>,
) -> Ledger
    decreases run.len(),
{
    if run.len() == 0 {
        ledger
    } else {
        deposited(
            deposited_each(ledger, account_id, amount, run.drop_last()),
            account_id,
            amount,
            run.last(),
        )
    }
}

/// The ledger after the withdrawals of `run` were served in order, each of
/// `amount` from `account_id`.
pub open spec fn withdrawn_each(
    ledger: Ledger,
    account_id: u128,
    amount: int,
    run: Seq<Submission>,
) -> Ledger
    decreases run.len(),
{
    if run.len() == 0 {
        ledger
    } else {
        withdrawn(
            withdrawn_each(ledger, account_id, amount, run.drop_last()),
            account_id,
            amount,
            run.last(),
        )
    }
}

/// The smaller of two numbers.
pub open spec fn at_most(a: int, b: int) -> int {
    if a <= b {
        a
    } else {
        b
    }
}

/// For a balance that is not negative and a positive amount, `j + 1`
/// withdrawals fit exactly when `j` is below the whole quotient.
pub proof fn lemma_fits(balance: int, amount: int, j: int)
    requires
        balance >= 0,
        amount > 0,
        j >= 0,
    ensures
        (j < balance / amount) <==> ((j + 1) * amount <= balance),
        balance == (balance / amount) * amount + balance % amount,
        0 <= balance % amount < amount,
        0 <= balance / amount,
{
    let q = balance / amount;
    let r = balance % amount;
    vstd::arithmetic::div_mod::lemma_fundamental_div_mod(balance, amount);
    vstd::arithmetic::div_mod::lemma_mod_bound(balance, amount);
    assert(balance == amount * q + r);
    assert(amount * q == q * amount) by (nonlinear_arith);
    assert(0 <= q) by (nonlinear_arith)
        requires
            balance == q * amount + r,
            0 <= r < amount,
            balance >= 0,
            amount > 0,
    {}
    if j < q {
        assert((j + 1) * amount <= q * amount) by (nonlinear_arith)
            requires
                j + 1 <= q,
                amount > 0,
        {}
    } else {
        assert((j + 1) * amount >= (q + 1) * amount) by (nonlinear_arith)
            requires
                j + 1 >= q + 1,
                amount > 0,
        {}
        assert((q + 1) * amount == q * amount + amount) by (nonlinear_arith);
    }
}

/// Deposits served one after the other are never lost: `n` deposits of a
/// positive amount into an account, each of which fits, are all accepted, and
/// leave the balance higher by exactly `n` times the amount, with `n` more
/// transactions on record. Whether two of them carry the same idempotency key
/// makes no difference: each is applied.
pub proof fn law_serial_deposits_add_up(
    ledger: Ledger,
    account_id: u128,
    amount: int,
    run: Seq<Submission>,
)
    requires
        ledger.well_keyed(),
        ledger.accounts.contains_key(account_id),
        amount > 0,
        representable(ledger.accounts[account_id].balance),
        representable(ledger.accounts[account_id].balance + run.len() * amount),
    ensures
        ({
            let after = deposited_each(ledger, account_id, amount, run);
            &&& after.well_keyed()
            &&& after.accounts.contains_key(account_id)
            &&& after.accounts[account_id].balance == ledger.accounts[account_id].balance
                + run.len() * amount
            &&& after.transactions.len() == ledger.transactions.len() + run.len()
            &&& ledger.consistent() ==> after.consistent()
        }),
        forall|i: int|
            0 <= i < run.len() ==> deposit_refusal(
                #[trigger] deposited_each(ledger, account_id, amount, run.take(i)),
                account_id,
                amount,
            ) is None,
    decreases run.len(),
{
    let balance = ledger.accounts[account_id].balance;
    if run.len() > 0 {
        let n = run.len() - 1;
        let earlier = run.drop_last();
        assert(n * amount >= 0 && run.len() * amount == n * amount + amount) by (nonlinear_arith)
            requires
                n >= 0,
                amount > 0,
                run.len() == n + 1,
        {}
        law_serial_deposits_add_up(ledger, account_id, amount, earlier);
        let mid = deposited_each(ledger, account_id, amount, earlier);
        assert(deposit_refusal(mid, account_id, amount) is None);
        let entry = TransactionView::against(
            mid.accounts[account_id],
            run.last().idempotency_key,
            amount,
            run.last().id,
            run.last().at,
        );
        lemma_posting_keeps_keys(mid, entry, run.last().version);
        if ledger.consistent() {
            law_posting_keeps_consistency(mid, entry, run.last().version);
        }
        assert forall|i: int| 0 <= i < run.len() implies deposit_refusal(
            #[trigger] deposited_each(ledger, account_id, amount, run.take(i)),
            account_id,
            amount,
        ) is None by {
            if i < n {
                assert(run.take(i) =~= earlier.take(i));
            } else {
                assert(run.take(i) =~= earlier);
            }
        }
    }
}

/// Withdrawals served one after the other never overdraw: of `n` withdrawals
/// of a positive amount from a balance `b` that is not negative, exactly the
/// first `floor(b / amount)` are accepted (all of them when `n` is smaller),
/// each later one is refused for insufficient balance, and the balance ends at
/// `b` less the accepted ones; once every withdrawal that fits was made, that
/// is the remainder of `b` by the amount.
pub proof fn law_serial_withdrawals_stop_at_zero(
    ledger: Ledger,
    account_id: u128,
    amount: int,
    run: Seq<Submission>,
)
    requires
        ledger.well_keyed(),
        ledger.accounts.contains_key(account_id),
        amount > 0,
        ledger.accounts[account_id].balance >= 0,
    ensures
        ({
            let balance = ledger.accounts[account_id].balance;
            let after = withdrawn_each(ledger, account_id, amount, run);
            let accepted = at_most(run.len() as int, balance / amount);
            &&& after.well_keyed()
            &&& after.accounts.contains_key(account_id)
            &&& after.accounts[account_id].balance == balance - accepted * amount
            &&& after.accounts[account_id].balance >= 0
            &&& after.transactions.len() == ledger.transactions.len() + accepted
            &&& run.len() >= balance / amount ==> after.accounts[account_id].balance == balance
                % amount
            &&& ledger.consistent() ==> after.consistent()
        }),
        forall|i: int|
            0 <= i < run.len() ==> withdrawal_refusal(
                #[trigger] withdrawn_each(ledger, account_id, amount, run.take(i)),
                account_id,
                amount,
            ) == (if i < ledger.accounts[account_id].balance / amount {
                None
            } else {
                Some(LedgerError::InsufficientBalance)
            }),
    decreases run.len(),
{
    let balance = ledger.accounts[account_id].balance;
    let quotient = balance / amount;
    lemma_fits(balance, amount, 0);
    if run.len() == 0 {
        assert(0 * amount == 0) by (nonlinear_arith);
    } else {
        let n = run.len() - 1;
        let earlier = run.drop_last();
        law_serial_withdrawals_stop_at_zero(ledger, account_id, amount, earlier);
        let mid = withdrawn_each(ledger, account_id, amount, earlier);
        let so_far = at_most(n, quotient);
        lemma_fits(balance, amount, so_far);
        assert((so_far + 1) * amount == so_far * amount + amount) by (nonlinear_arith);
        if n < quotient {
            assert(withdrawal_refusal(mid, account_id, amount) is None);
        } else {
            assert(withdrawal_refusal(mid, account_id, amount) == Some(
                LedgerError::InsufficientBalance,
            ));
        }
        let entry = TransactionView::against(
            mid.accounts[account_id],
            run.last().idempotency_key,
            -amount,
            run.last().id,
            run.last().at,
        );
        lemma_posting_keeps_keys(mid, entry, run.last().version);
        if ledger.consistent() && n < quotient {
            law_posting_keeps_consistency(mid, entry, run.last().version);
        }
        assert forall|i: int| 0 <= i < run.len() implies withdrawal_refusal(
            #[trigger] withdrawn_each(ledger, account_id, amount, run.take(i)),
            account_id,
            amount,
        ) == (if i < quotient {
            None
        } else {
            Some(LedgerError::InsufficientBalance)
        }) by {
            if i < n {
                assert(run.take(i) =~= earlier.take(i));
            } else {
                assert(run.take(i) =~= earlier);
            }
        }
    }
}

} // verus!
