use vstd::prelude::*;

verus! {

/// One ledger account, created lazily on the first event that names its
/// client identifier and never deleted.
///
/// The three balances are signed fixed-point decimals, held as integer
/// counts of 1/10_000 currency units.
#[derive(Clone, Copy, Debug, PartialEq, Eq, Structural)]
pub struct Account {
    pub client: u16,
    /// Funds spendable or disputable right now.
    pub available: i128,
    /// Funds frozen pending dispute resolution.
    pub held: i128,
    /// The full balance; `available + held` whenever the account is balanced.
    pub total: i128,
    /// Once true the account is frozen forever; set only by a chargeback.
    pub locked: bool,
}

impl Account {
    /// The account a client starts with: all balances zero, not locked.
    pub open spec fn fresh(client: u16) -> Account {
        Account { client, available: 0, held: 0, total: 0, locked: false }
    }

    /// The balance-sheet identity: the full balance is what is spendable
    /// plus what is frozen, exactly.
    pub open spec fn balanced(self) -> bool {
        self.total == self.available + self.held
    }

    pub fn new(client: u16) -> (account: Account)
        ensures
            account == Account::fresh(client),
    {
        Account { client, available: 0, held: 0, total: 0, locked: false }
    }
}

} // verus!
