//! A personal ledger: deposits and withdrawals, tagged and timestamped, kept
//! in a store with one writer at a time.
//!
//! - `record`, `clock`: the transaction and the instant it happened at.
//! - `order`, `ledger`: the canonical order by id, and what makes a list of
//!   records a ledger.
//! - `store`: the store, its write scope, and the import of a batch.
//! - `entry`: entering a deposit or a withdrawal.
//! - `balance`: the balance of each currency.
//! - `query`: the filtered export and the tags in use.
//! - `command`: one whole request, from its write scope to its commit.
//! - `log`: which messages are shown, and how.
//!
//! Amounts are held as the bit patterns of single-precision numbers and are
//! never computed with here: where a sum is wanted, the caller supplies the
//! addition and the subtraction.

pub mod balance;
pub mod clock;
pub mod command;
pub mod entry;
pub mod error;
pub mod ledger;
pub mod log;
pub mod order;
pub mod query;
pub mod record;
pub mod store;
