//! A replay engine for a sequential log of ledger events.
//!
//! Events (deposits, withdrawals, disputes, resolutions, chargebacks) are
//! applied one at a time against per-client accounts. Balances are signed
//! fixed-point decimals held as integer counts of 1/10_000 currency units,
//! so four fractional digits are always exact and `total == available + held`
//! holds without rounding drift.

pub mod account;
pub mod engine;
pub mod laws;
pub mod store;
