//! An append-only, multi-currency account ledger.
//!
//! Balances are never stored as mutable counters: every completed transfer is
//! recorded as one immutable row carrying the post-transfer balances of both
//! sides, and an account's current balance is the snapshot on the most recent
//! row it participates in.  On top of that model the crate provides the
//! balance resolver, the transfer authorizer, account statements, and
//! distributional statistics (money supply, transfer volume, median, average
//! and Gini coefficient) over all current balances.

pub mod conservation;
pub mod currency;
pub mod ledger;
pub mod operation;
pub mod stat;
