//! A verified state-transition core for an agricultural provenance and
//! crowdfunding ledger: farmer identity records, append-only product
//! lifecycle logs, and escrowed fundraising campaigns.
//!
//! The core trusts an external execution environment for authentication,
//! the clock, record storage and value transfer; every operation takes the
//! authenticated caller and the current timestamp as explicit arguments,
//! and the [`ledger::Ledger`] models the environment's storage and custody
//! balances so that the accounting and authorization rules can be proved
//! end to end.

pub mod identity;
pub mod ids;
pub mod laws;
pub mod ledger;
pub mod records;
