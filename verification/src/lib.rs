//! Accounting core of a reward-distribution ledger for a yield-bearing
//! token, together with the time-locked handover of governance.
//!
//! Every executable function in this crate is verified against the contract
//! in its signature. The contracts speak of mathematical views (`@`) of the
//! data types: natural numbers for amounts and indices, sequences of
//! characters for addresses.

pub mod address;
pub mod config;
pub mod contract;
pub mod error;
pub mod governance;
pub mod holders;
pub mod laws;
pub mod math;
pub mod msg;
pub mod rewards;
pub mod state;
pub mod token;
