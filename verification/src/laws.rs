use vstd::prelude::*;

use crate::account::Account;
use crate::engine::{
    apply, fits, locked_out, wf_ledger, Transaction, TransactionType,
};
use crate::store::{LedgerView, TransactionRecord};

verus! {

/// Creating a missing account afresh keeps the books and the listing
/// order consistent, and afterwards the account is on the books.
proof fn lemma_with_account_preserves_wf(v: LedgerView, client: u16)
    requires
        wf_ledger(v),
    ensures
        wf_ledger(v.with_account(client)),
        v.with_account(client).accounts.contains_key(client),
{
    let v1 = v.with_account(client);
    if !v.accounts.contains_key(client) {
        assert forall|c: u16| #[trigger] v1.accounts.contains_key(c) implies v1.order.contains(
            c,
        ) by {
            if c == client {
                assert(v1.order[v.order.len() as int] == client);
            } else {
                assert(v.order.contains(c));
                let i = choose|i: int| 0 <= i < v.order.len() && v.order[i] == c;
                assert(v1.order[i] == c);
            }
        }
        assert forall|i: int, j: int| 0 <= i < j < v1.order.len() implies v1.order[i]
            != v1.order[j] by {
            if j == v.order.len() {
                assert(v.accounts.contains_key(v.order[i]));
            }
        }
    }
}

/// Writing a balanced account back under its own client identifier keeps
/// the books and the listing order consistent.
proof fn lemma_set_account_wf(v: LedgerView, client: u16, account: Account)
    requires
        wf_ledger(v),
        v.accounts.contains_key(client),
        account.client == client,
        account.balanced(),
    ensures
        wf_ledger(v.set_account(client, account)),
{
    let v2 = v.set_account(client, account);
    assert forall|c: u16| #[trigger] v2.accounts.contains_key(c) implies v2.order.contains(
        c,
    ) by {
        assert(v.accounts.contains_key(c));
    }
}

/// Processing one event within machine limits keeps every account
/// balanced — `total == available + held` exactly, with no rounding
/// drift — and keeps the listing order consistent.
pub proof fn lemma_apply_preserves_wf(v: LedgerView, t: Transaction)
    requires
        wf_ledger(v),
        fits(v, t),
    ensures
        wf_ledger(apply(v, t)),
{
    if !locked_out(v, t) {
        lemma_with_account_preserves_wf(v, t.client);
        let v1 = v.with_account(t.client);
        let a = v1.accounts[t.client];
        match t.tx_type {
            TransactionType::Deposit => {
                let credited = Account {
                    available: (a.available + t.amount) as i128,
                    total: (a.total + t.amount) as i128,
                    ..a
                };
                lemma_set_account_wf(v1, t.client, credited);
            },
            TransactionType::Withdrawal => {
                if a.available >= t.amount {
                    let debited = Account {
                        available: (a.available - t.amount) as i128,
                        total: (a.total - t.amount) as i128,
                        ..a
                    };
                    lemma_set_account_wf(v1, t.client, debited);
                }
            },
            TransactionType::Dispute => {
                if v1.transactions.contains_key(t.tx) {
                    let r = v1.transactions[t.tx];
                    if !r.disputed && a.available >= r.amount {
                        let frozen = Account {
                            available: (a.available - r.amount) as i128,
                            held: (a.held + r.amount) as i128,
                            ..a
                        };
                        lemma_set_account_wf(v1, t.client, frozen);
                    }
                }
            },
            TransactionType::Resolve => {
                if v1.transactions.contains_key(t.tx) {
                    let r = v1.transactions[t.tx];
                    if r.disputed && a.held >= r.amount {
                        let released = Account {
                            available: (a.available + r.amount) as i128,
                            held: (a.held - r.amount) as i128,
                            ..a
                        };
                        lemma_set_account_wf(v1, t.client, released);
                    }
                }
            },
            TransactionType::Chargeback => {
                if v1.transactions.contains_key(t.tx) {
                    let r = v1.transactions[t.tx];
                    if r.disputed && a.held >= r.amount {
                        let reversed = Account {
                            held: (a.held - r.amount) as i128,
                            total: (a.total - r.amount) as i128,
                            locked: true,
                            ..a
                        };
                        lemma_set_account_wf(v1, t.client, reversed);
                    }
                }
            },
        }
    }
}

/// The state after replaying a whole sequence of events, one at a time,
/// in arrival order.
pub open spec fn apply_all(v: LedgerView, ts: Seq<Transaction>) -> LedgerView
    decreases ts.len(),
{
    if ts.len() == 0 {
        v
    } else {
        apply_all(apply(v, ts[0]), ts.drop_first())
    }
}

/// Every step of a replay stays within machine limits.
pub open spec fn all_fit(v: LedgerView, ts: Seq<Transaction>) -> bool
    decreases ts.len(),
{
    ts.len() == 0 || (fits(v, ts[0]) && all_fit(apply(v, ts[0]), ts.drop_first()))
}

/// For an arbitrary sequence of events, every account stays balanced at
/// every point of the replay: `total == available + held` exactly, with
/// zero rounding error.
pub proof fn lemma_replay_preserves_wf(v: LedgerView, ts: Seq<Transaction>)
    requires
        wf_ledger(v),
        all_fit(v, ts),
    ensures
        wf_ledger(apply_all(v, ts)),
    decreases ts.len(),
{
    if ts.len() > 0 {
        lemma_apply_preserves_wf(v, ts[0]);
        lemma_replay_preserves_wf(apply(v, ts[0]), ts.drop_first());
    }
}

/// Once an account is locked, no event — for that client or any other —
/// changes its `available`, `held`, `total` or `locked` field.
pub proof fn lemma_locked_account_frozen(v: LedgerView, t: Transaction, client: u16)
    requires
        v.accounts.contains_key(client),
        v.accounts[client].locked,
    ensures
        apply(v, t).accounts.contains_key(client),
        apply(v, t).accounts[client] == v.accounts[client],
{
    if !locked_out(v, t) {
        assert(t.client != client);
        match t.tx_type {
            TransactionType::Deposit => {},
            TransactionType::Withdrawal => {},
            TransactionType::Dispute => {},
            TransactionType::Resolve => {},
            TransactionType::Chargeback => {},
        }
    }
}

/// Once an account is locked, it stays locked and untouched through any
/// subsequent sequence of events.
pub proof fn lemma_locked_account_frozen_replay(v: LedgerView, ts: Seq<Transaction>, client: u16)
    requires
        v.accounts.contains_key(client),
        v.accounts[client].locked,
    ensures
        apply_all(v, ts).accounts.contains_key(client),
        apply_all(v, ts).accounts[client] == v.accounts[client],
    decreases ts.len(),
{
    if ts.len() > 0 {
        lemma_locked_account_frozen(v, ts[0], client);
        lemma_locked_account_frozen_replay(apply(v, ts[0]), ts.drop_first(), client);
    }
}

/// Re-processing a dispute of a transaction that is already under dispute
/// is a no-op: the state is identical before and after. (The event's
/// client has an account already, created when the dispute was first
/// processed.)
pub proof fn lemma_repeat_dispute_is_noop(v: LedgerView, t: Transaction)
    requires
        t.tx_type is Dispute,
        v.accounts.contains_key(t.client),
        v.transactions.contains_key(t.tx),
        v.transactions[t.tx].disputed,
    ensures
        apply(v, t) == v,
{
}

/// Processing the same dispute twice leaves exactly the state that
/// processing it once leaves.
pub proof fn lemma_dispute_idempotent(v: LedgerView, t: Transaction)
    requires
        t.tx_type is Dispute,
    ensures
        apply(apply(v, t), t) == apply(v, t),
{
    let v1 = apply(v, t);
    if !locked_out(v, t) {
        let w = v.with_account(t.client);
        assert(!w.accounts[t.client].locked);
        assert(!locked_out(v1, t));
        assert(v1.with_account(t.client) == v1);
    }
}

/// A withdrawal of exactly the available funds succeeds and leaves zero
/// available; a withdrawal of any more — even one 1/10_000 unit more —
/// is dropped, changing no balance and storing no record.
pub proof fn lemma_withdrawal_boundary(v: LedgerView, t: Transaction)
    requires
        t.tx_type is Withdrawal,
        !locked_out(v, t),
        fits(v, t),
    ensures
        t.amount == v.with_account(t.client).accounts[t.client].available ==> {
            let before = v.with_account(t.client).accounts[t.client];
            let after = apply(v, t);
            &&& after.accounts[t.client].available == 0
            &&& after.accounts[t.client].held == before.held
            &&& after.accounts[t.client].total == before.total - t.amount
            &&& after.transactions == v.transactions.insert(
                t.tx,
                (TransactionRecord { amount: t.amount, disputed: false }),
            )
        },
        t.amount > v.with_account(t.client).accounts[t.client].available ==> apply(v, t)
            == v.with_account(t.client),
{
}



} // verus!
