//! Core of an on-ledger yield-farming protocol: participants stake
//! whitelisted non-fungible assets into a farm and accrue fungible rewards
//! over time, optionally under a fixed-term lock that raises the payout rate.
//!
//! The ledger, its accounts and its token vaults are modelled as plain data:
//! a derived storage address is the tuple of identifiers it is derived from,
//! and a token vault is a balance counter.  All state changes go through the
//! operations on [`ledger::Ledger`], each an atomic step of the stake
//! lifecycle state machine.

pub mod address;
pub mod error;
pub mod laws;
pub mod ledger;
pub mod model;
pub mod output;
pub mod rewards;
pub mod state;

pub use error::Error;
pub use error::ErrorKind;
