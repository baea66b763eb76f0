use vstd::prelude::*;

use crate::account::Account;
use crate::store::{LedgerStore, LedgerView, TransactionRecord};

verus! {

/// The five kinds of ledger event, dispatched exhaustively.
#[derive(Clone, Copy, Debug, PartialEq, Eq, Structural)]
pub enum TransactionType {
    Deposit,
    Withdrawal,
    Dispute,
    Resolve,
    Chargeback,
}

/// One event of the input log.
///
/// `amount` carries the moved funds for deposits and withdrawals, in
/// 1/10_000 currency units; the other three kinds carry no amount of their
/// own and use a neutral zero there.
#[derive(Clone, Copy, Debug, PartialEq, Eq, Structural)]
pub struct Transaction {
    pub tx_type: TransactionType,
    pub client: u16,
    pub tx: u32,
    pub amount: i128,
}

/// Whether a mathematical value is representable as an `i128`, and so as a
/// balance of 1/10_000 currency units.
pub open spec fn in_i128(value: int) -> bool {
    i128::MIN <= value <= i128::MAX
}

/// The dispatch guard: the event's client already has an account and that
/// account is frozen, so the event is silently dropped.
pub open spec fn locked_out(v: LedgerView, t: Transaction) -> bool {
    v.accounts.contains_key(t.client) && v.accounts[t.client].locked
}

/// A deposit credits the account unconditionally and stores a fresh,
/// undisputed record under the event's transaction identifier.
pub open spec fn apply_deposit(v: LedgerView, t: Transaction) -> LedgerView {
    let v1 = v.with_account(t.client);
    let a = v1.accounts[t.client];
    let credited = Account {
        available: (a.available + t.amount) as i128,
        total: (a.total + t.amount) as i128,
        ..a
    };
    v1.set_account(t.client, credited).set_record(
        t.tx,
        TransactionRecord { amount: t.amount, disputed: false },
    )
}

/// A withdrawal debits the account and stores a record only when the
/// available funds cover it; otherwise it is silently dropped.
pub open spec fn apply_withdrawal(v: LedgerView, t: Transaction) -> LedgerView {
    let v1 = v.with_account(t.client);
    let a = v1.accounts[t.client];
    if a.available >= t.amount {
        let debited = Account {
            available: (a.available - t.amount) as i128,
            total: (a.total - t.amount) as i128,
            ..a
        };
        v1.set_account(t.client, debited).set_record(
            t.tx,
            TransactionRecord { amount: t.amount, disputed: false },
        )
    } else {
        v1
    }
}

/// A dispute freezes the referenced record's amount: available funds move
/// to held, the record is flagged. Dropped unless the record exists, is not
/// already disputed, and the available funds cover its amount.
pub open spec fn apply_dispute(v: LedgerView, t: Transaction) -> LedgerView {
    let v1 = v.with_account(t.client);
    let a = v1.accounts[t.client];
    if v1.transactions.contains_key(t.tx) {
        let r = v1.transactions[t.tx];
        if !r.disputed && a.available >= r.amount {
            let frozen = Account {
                available: (a.available - r.amount) as i128,
                held: (a.held + r.amount) as i128,
                ..a
            };
            v1.set_account(t.client, frozen).set_record(
                t.tx,
                TransactionRecord { amount: r.amount, disputed: true },
            )
        } else {
            v1
        }
    } else {
        v1
    }
}

/// A resolve releases a disputed record's amount back to available funds
/// and removes the record. Dropped unless the record exists, is disputed,
/// and the held funds cover its amount.
pub open spec fn apply_resolve(v: LedgerView, t: Transaction) -> LedgerView {
    let v1 = v.with_account(t.client);
    let a = v1.accounts[t.client];
    if v1.transactions.contains_key(t.tx) {
        let r = v1.transactions[t.tx];
        if r.disputed && a.held >= r.amount {
            let released = Account {
                available: (a.available + r.amount) as i128,
                held: (a.held - r.amount) as i128,
                ..a
            };
            v1.set_account(t.client, released).without_record(t.tx)
        } else {
            v1
        }
    } else {
        v1
    }
}

/// A chargeback withdraws a disputed record's held amount for good,
/// removes the record and freezes the account forever. Dropped unless the
/// record exists, is disputed, and the held funds cover its amount.
pub open spec fn apply_chargeback(v: LedgerView, t: Transaction) -> LedgerView {
    let v1 = v.with_account(t.client);
    let a = v1.accounts[t.client];
    if v1.transactions.contains_key(t.tx) {
        let r = v1.transactions[t.tx];
        if r.disputed && a.held >= r.amount {
            let reversed = Account {
                held: (a.held - r.amount) as i128,
                total: (a.total - r.amount) as i128,
                locked: true,
                ..a
            };
            v1.set_account(t.client, reversed).without_record(t.tx)
        } else {
            v1
        }
    } else {
        v1
    }
}

/// The state after processing one event: the dispatch guard first, then
/// the kind-specific rule. This is the engine's whole behaviour.
pub open spec fn apply(v: LedgerView, t: Transaction) -> LedgerView {
    if locked_out(v, t) {
        v
    } else {
        match t.tx_type {
            TransactionType::Deposit => apply_deposit(v, t),
            TransactionType::Withdrawal => apply_withdrawal(v, t),
            TransactionType::Dispute => apply_dispute(v, t),
            TransactionType::Resolve => apply_resolve(v, t),
            TransactionType::Chargeback => apply_chargeback(v, t),
        }
    }
}

/// The arithmetic of the branch the event takes stays within `i128`.
/// This is the one machine limit the engine puts on an event; the
/// mathematical rules themselves never fail.
pub open spec fn fits(v: LedgerView, t: Transaction) -> bool {
    locked_out(v, t) || {
        let v1 = v.with_account(t.client);
        let a = v1.accounts[t.client];
        match t.tx_type {
            TransactionType::Deposit => in_i128(a.available + t.amount) && in_i128(
                a.total + t.amount,
            ),
            TransactionType::Withdrawal => a.available >= t.amount ==> in_i128(
                a.available - t.amount,
            ) && in_i128(a.total - t.amount),
            TransactionType::Dispute => v1.transactions.contains_key(t.tx) ==> {
                let r = v1.transactions[t.tx];
                (!r.disputed && a.available >= r.amount) ==> in_i128(a.available - r.amount)
                    && in_i128(a.held + r.amount)
            },
            TransactionType::Resolve => v1.transactions.contains_key(t.tx) ==> {
                let r = v1.transactions[t.tx];
                (r.disputed && a.held >= r.amount) ==> in_i128(a.available + r.amount) && in_i128(
                    a.held - r.amount,
                )
            },
            TransactionType::Chargeback => v1.transactions.contains_key(t.tx) ==> {
                let r = v1.transactions[t.tx];
                (r.disputed && a.held >= r.amount) ==> in_i128(a.held - r.amount) && in_i128(
                    a.total - r.amount,
                )
            },
        }
    }
}

/// Every account on the books is keyed by its own client identifier and
/// satisfies the balance-sheet identity.
pub open spec fn balances_ok(v: LedgerView) -> bool {
    forall|client: u16|
        #[trigger] v.accounts.contains_key(client) ==> v.accounts[client].client == client
            && v.accounts[client].balanced()
}

/// Everything the engine keeps true of its state: consistent books and a
/// consistent first-seen listing order.
pub open spec fn wf_ledger(v: LedgerView) -> bool {
    balances_ok(v) && v.orderly()
}

/// Whether `a + b` stays within `i128`.
fn sum_in_range(a: i128, b: i128) -> (ok: bool)
    ensures
        ok == in_i128(a + b),
{
    if b >= 0 {
        a <= i128::MAX - b
    } else {
        a >= i128::MIN - b
    }
}

/// Whether `a - b` stays within `i128`.
fn diff_in_range(a: i128, b: i128) -> (ok: bool)
    ensures
        ok == in_i128(a - b),
{
    if b >= 0 {
        a >= i128::MIN + b
    } else {
        a <= i128::MAX + b
    }
}

/// The transaction engine: consumes one event at a time, in arrival order,
/// and applies the kind-specific rule against its ledger store.
pub struct TransactionEngine {
    store: LedgerStore,
}

impl View for TransactionEngine {
    type V = LedgerView;

    closed spec fn view(&self) -> LedgerView {
        self.store@
    }
}

impl TransactionEngine {
    pub fn new() -> (engine: TransactionEngine)
        ensures
            engine@ == LedgerView::empty(),
            wf_ledger(engine@),
    {
        TransactionEngine { store: LedgerStore::new() }
    }

    /// Process one event. The whole effect is [`apply`]; business-rule
    /// violations are silently dropped inside it, never surfaced.
    pub fn process_transaction(&mut self, transaction: Transaction)
        requires
            fits(old(self)@, transaction),
        ensures
            final(self)@ == apply(old(self)@, transaction),
            wf_ledger(old(self)@) ==> wf_ledger(final(self)@),
    {
        let ghost v0 = self@;
        if let Some(account) = self.store.get_account(transaction.client) {
            if account.locked {
                return ;
            }
        }
        match transaction.tx_type {
            TransactionType::Deposit => self.handle_deposit(transaction),
            TransactionType::Withdrawal => self.handle_withdrawal(transaction),
            TransactionType::Dispute => self.handle_dispute(transaction),
            TransactionType::Resolve => self.handle_resolve(transaction),
            TransactionType::Chargeback => self.handle_chargeback(transaction),
        }
        proof {
            if wf_ledger(v0) {
                crate::laws::lemma_apply_preserves_wf(v0, transaction);
            }
        }
    }

    fn handle_deposit(&mut self, transaction: Transaction)
        requires
            transaction.tx_type is Deposit,
            !locked_out(old(self)@, transaction),
            fits(old(self)@, transaction),
        ensures
            final(self)@ == apply_deposit(old(self)@, transaction),
    {
        let account = self.store.get_or_create_account(transaction.client);
        let credited = Account {
            client: account.client,
            available: account.available + transaction.amount,
            held: account.held,
            total: account.total + transaction.amount,
            locked: account.locked,
        };
        self.store.put_account(transaction.client, credited);
        self.store.put_record(
            transaction.tx,
            TransactionRecord { amount: transaction.amount, disputed: false },
        );
    }

    fn handle_withdrawal(&mut self, transaction: Transaction)
        requires
            transaction.tx_type is Withdrawal,
            !locked_out(old(self)@, transaction),
            fits(old(self)@, transaction),
        ensures
            final(self)@ == apply_withdrawal(old(self)@, transaction),
    {
        let account = self.store.get_or_create_account(transaction.client);
        if account.available >= transaction.amount {
            let debited = Account {
                client: account.client,
                available: account.available - transaction.amount,
                held: account.held,
                total: account.total - transaction.amount,
                locked: account.locked,
            };
            self.store.put_account(transaction.client, debited);
            self.store.put_record(
                transaction.tx,
                TransactionRecord { amount: transaction.amount, disputed: false },
            );
        }
    }

    fn handle_dispute(&mut self, transaction: Transaction)
        requires
            transaction.tx_type is Dispute,
            !locked_out(old(self)@, transaction),
            fits(old(self)@, transaction),
        ensures
            final(self)@ == apply_dispute(old(self)@, transaction),
    {
        let account = self.store.get_or_create_account(transaction.client);
        if let Some(record) = self.store.get_record(transaction.tx) {
            if !record.disputed && account.available >= record.amount {
                let frozen = Account {
                    client: account.client,
                    available: account.available - record.amount,
                    held: account.held + record.amount,
                    total: account.total,
                    locked: account.locked,
                };
                self.store.put_account(transaction.client, frozen);
                self.store.put_record(
                    transaction.tx,
                    TransactionRecord { amount: record.amount, disputed: true },
                );
            }
        }
    }

    fn handle_resolve(&mut self, transaction: Transaction)
        requires
            transaction.tx_type is Resolve,
            !locked_out(old(self)@, transaction),
            fits(old(self)@, transaction),
        ensures
            final(self)@ == apply_resolve(old(self)@, transaction),
    {
        let account = self.store.get_or_create_account(transaction.client);
        if let Some(record) = self.store.get_record(transaction.tx) {
            if record.disputed && account.held >= record.amount {
                let released = Account {
                    client: account.client,
                    available: account.available + record.amount,
                    held: account.held - record.amount,
                    total: account.total,
                    locked: account.locked,
                };
                self.store.put_account(transaction.client, released);
                self.store.remove_record(transaction.tx);
            }
        }
    }

    fn handle_chargeback(&mut self, transaction: Transaction)
        requires
            transaction.tx_type is Chargeback,
            !locked_out(old(self)@, transaction),
            fits(old(self)@, transaction),
        ensures
            final(self)@ == apply_chargeback(old(self)@, transaction),
    {
        let account = self.store.get_or_create_account(transaction.client);
        if let Some(record) = self.store.get_record(transaction.tx) {
            if record.disputed && account.held >= record.amount {
                let reversed = Account {
                    client: account.client,
                    available: account.available,
                    held: account.held - record.amount,
                    total: account.total - record.amount,
                    locked: true,
                };
                self.store.put_account(transaction.client, reversed);
                self.store.remove_record(transaction.tx);
            }
        }
    }

    /// Decide ahead of a call to [`Self::process_transaction`] whether the
    /// event's arithmetic stays within machine limits. An unverified caller
    /// tests this and treats a refusal as the fatal overflow it would be.
    pub fn can_apply(&self, transaction: Transaction) -> (ok: bool)
        ensures
            ok == fits(self@, transaction),
    {
        let account = match self.get_account(transaction.client) {
            Some(account) => {
                if account.locked {
                    return true;
                }
                account
            },
            None => Account::new(transaction.client),
        };
        match transaction.tx_type {
            TransactionType::Deposit => sum_in_range(account.available, transaction.amount)
                && sum_in_range(account.total, transaction.amount),
            TransactionType::Withdrawal => {
                if account.available >= transaction.amount {
                    diff_in_range(account.available, transaction.amount) && diff_in_range(
                        account.total,
                        transaction.amount,
                    )
                } else {
                    true
                }
            },
            TransactionType::Dispute => {
                match self.get_record(transaction.tx) {
                    Some(record) => {
                        if !record.disputed && account.available >= record.amount {
                            diff_in_range(account.available, record.amount) && sum_in_range(
                                account.held,
                                record.amount,
                            )
                        } else {
                            true
                        }
                    },
                    None => true,
                }
            },
            TransactionType::Resolve => {
                match self.get_record(transaction.tx) {
                    Some(record) => {
                        if record.disputed && account.held >= record.amount {
                            sum_in_range(account.available, record.amount) && diff_in_range(
                                account.held,
                                record.amount,
                            )
                        } else {
                            true
                        }
                    },
                    None => true,
                }
            },
            TransactionType::Chargeback => {
                match self.get_record(transaction.tx) {
                    Some(record) => {
                        if record.disputed && account.held >= record.amount {
                            diff_in_range(account.held, record.amount) && diff_in_range(
                                account.total,
                                record.amount,
                            )
                        } else {
                            true
                        }
                    },
                    None => true,
                }
            },
        }
    }

    /// Read one client's account, if any event has created it.
    pub fn get_account(&self, client: u16) -> (account: Option<Account>)
        ensures
            account == if self@.accounts.contains_key(client) {
                Some(self@.accounts[client])
            } else {
                None::<Account>
            },
    {
        self.store.get_account(client)
    }

    /// Read one transaction record, if it is currently held.
    pub fn get_record(&self, tx: u32) -> (record: Option<TransactionRecord>)
        ensures
            record == if self@.transactions.contains_key(tx) {
                Some(self@.transactions[tx])
            } else {
                None::<TransactionRecord>
            },
    {
        self.store.get_record(tx)
    }

    /// The final read of all accounts, in first-seen client order.
    pub fn list_accounts(&self) -> (accounts: Vec<Account>)
        ensures
            self@.orderly() ==> {
                &&& accounts@.len() == self@.order.len()
                &&& forall|i: int|
                    0 <= i < accounts@.len() ==> accounts@[i] == self@.accounts[#[trigger] self@.order[i]]
            },
    {
        self.store.list_accounts()
    }
}

} // verus!
