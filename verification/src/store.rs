use vstd::prelude::*;

use crate::account::Account;
use std::collections::HashMap;

verus! {

broadcast use vstd::std_specs::hash::group_hash_axioms;

/// The stored amount and dispute flag of one deposit or withdrawal,
/// keyed in the store by its transaction identifier.
#[derive(Clone, Copy, Debug, PartialEq, Eq, Structural)]
pub struct TransactionRecord {
    /// The fixed-point amount the referenced deposit or withdrawal moved,
    /// in 1/10_000 currency units.
    pub amount: i128,
    /// True while a dispute on this transaction is open.
    pub disputed: bool,
}

/// The mathematical contents of a [`LedgerStore`]: the two keyed maps and
/// the order in which client identifiers were first seen.
#[verifier::ext_equal]
pub struct LedgerView {
    pub accounts: Map<u16, Account>,
    pub transactions: Map<u32, TransactionRecord>,
    /// Client identifiers in first-seen order; drives account listing.
    pub order: Seq<u16>,
}

impl LedgerView {
    pub open spec fn empty() -> LedgerView {
        LedgerView {
            accounts: Map::empty(),
            transactions: Map::empty(),
            order: Seq::empty(),
        }
    }

    /// The state after looking a client up, creating its account afresh if
    /// it was absent. Idempotent per client identifier.
    pub open spec fn with_account(self, client: u16) -> LedgerView {
        if self.accounts.contains_key(client) {
            self
        } else {
            LedgerView {
                accounts: self.accounts.insert(client, Account::fresh(client)),
                transactions: self.transactions,
                order: self.order.push(client),
            }
        }
    }

    /// The state after writing back an account through its handle.
    pub open spec fn set_account(self, client: u16, account: Account) -> LedgerView {
        LedgerView {
            accounts: self.accounts.insert(client, account),
            transactions: self.transactions,
            order: self.order,
        }
    }

    /// The state after storing (or silently overwriting) a transaction record.
    pub open spec fn set_record(self, tx: u32, record: TransactionRecord) -> LedgerView {
        LedgerView {
            accounts: self.accounts,
            transactions: self.transactions.insert(tx, record),
            order: self.order,
        }
    }

    /// The state after removing a transaction record, if present.
    pub open spec fn without_record(self, tx: u32) -> LedgerView {
        LedgerView {
            accounts: self.accounts,
            transactions: self.transactions.remove(tx),
            order: self.order,
        }
    }

    /// The first-seen order and the account map list exactly the same
    /// clients, each once. Holds of every store the engine builds.
    pub open spec fn orderly(self) -> bool {
        &&& forall|i: int|
            0 <= i < self.order.len() ==> self.accounts.contains_key(#[trigger] self.order[i])
        &&& forall|client: u16|
            #[trigger] self.accounts.contains_key(client) ==> self.order.contains(client)
        &&& forall|i: int, j: int|
            0 <= i < j < self.order.len() ==> self.order[i] != self.order[j]
    }
}

/// A pure keyed store: accounts by client identifier, transaction records
/// by transaction identifier. No validation logic lives here.
pub struct LedgerStore {
    accounts: HashMap<u16, Account>,
    transactions: HashMap<u32, TransactionRecord>,
    order: Vec<u16>,
}

impl View for LedgerStore {
    type V = LedgerView;

    closed spec fn view(&self) -> LedgerView {
        LedgerView {
            accounts: self.accounts@,
            transactions: self.transactions@,
            order: self.order@,
        }
    }
}

impl LedgerStore {
    pub fn new() -> (store: LedgerStore)
        ensures
            store@ == LedgerView::empty(),
    {
        LedgerStore {
            accounts: HashMap::new(),
            transactions: HashMap::new(),
            order: Vec::new(),
        }
    }

    /// Look a client's account up without creating it.
    pub fn get_account(&self, client: u16) -> (account: Option<Account>)
        ensures
            account == if self@.accounts.contains_key(client) {
                Some(self@.accounts[client])
            } else {
                None::<Account>
            },
    {
        match self.accounts.get(&client) {
            Some(account) => Some(*account),
            None => None,
        }
    }

    /// Look a client's account up, creating it with zero balances if it is
    /// absent. Returns a copy; mutations go back through [`Self::put_account`].
    pub fn get_or_create_account(&mut self, client: u16) -> (account: Account)
        ensures
            final(self)@ == old(self)@.with_account(client),
            final(self)@.accounts.contains_key(client),
            account == final(self)@.accounts[client],
    {
        match self.accounts.get(&client) {
            Some(account) => *account,
            None => {
                let account = Account::new(client);
                self.accounts.insert(client, account);
                self.order.push(client);
                account
            },
        }
    }

    /// Write an account back through the handle obtained from
    /// [`Self::get_or_create_account`].
    pub fn put_account(&mut self, client: u16, account: Account)
        requires
            old(self)@.accounts.contains_key(client),
        ensures
            final(self)@ == old(self)@.set_account(client, account),
    {
        self.accounts.insert(client, account);
    }

    /// Look a transaction record up by its transaction identifier.
    pub fn get_record(&self, tx: u32) -> (record: Option<TransactionRecord>)
        ensures
            record == if self@.transactions.contains_key(tx) {
                Some(self@.transactions[tx])
            } else {
                None::<TransactionRecord>
            },
    {
        match self.transactions.get(&tx) {
            Some(record) => Some(*record),
            None => None,
        }
    }

    /// Store a transaction record, silently overwriting any record already
    /// held under the same transaction identifier.
    pub fn put_record(&mut self, tx: u32, record: TransactionRecord)
        ensures
            final(self)@ == old(self)@.set_record(tx, record),
    {
        self.transactions.insert(tx, record);
    }

    /// Remove a transaction record; a no-op if none is held.
    pub fn remove_record(&mut self, tx: u32)
        ensures
            final(self)@ == old(self)@.without_record(tx),
    {
        self.transactions.remove(&tx);
    }

    /// All accounts, in first-seen order of their clients.
    ///
    /// The exact contract is conditional on [`LedgerView::orderly`], which
    /// every store the engine builds satisfies.
    pub fn list_accounts(&self) -> (accounts: Vec<Account>)
        ensures
            self@.orderly() ==> {
                &&& accounts@.len() == self@.order.len()
                &&& forall|i: int|
                    0 <= i < accounts@.len() ==> accounts@[i] == self@.accounts[#[trigger] self@.order[i]]
            },
    {
        let ghost well = self@.orderly();
        let mut accounts: Vec<Account> = Vec::new();
        let mut i: usize = 0;
        while i < self.order.len()
            invariant
                0 <= i <= self.order.len(),
                well == self@.orderly(),
                well ==> accounts@.len() == i,
                well ==> forall|j: int|
                    0 <= j < accounts@.len() ==> accounts@[j] == self@.accounts[#[trigger] self@.order[j]],
            decreases self.order.len() - i,
        {
            let client = self.order[i];
            match self.accounts.get(&client) {
                Some(account) => accounts.push(*account),
                None => {
                    proof {
                        if well {
                            assert(self@.accounts.contains_key(self@.order[i as int]));
                            assert(false);
                        }
                    }
                },
            }
            i = i + 1;
        }
        accounts
    }
}

} // verus!
