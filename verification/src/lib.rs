//! A token-staking ledger with activity-gated early-withdrawal penalties and a
//! deadman-switch recovery path.
//!
//! Stakers deposit a fungible token through the token contract's receive
//! envelope, may withdraw at any time (withdrawals before maturity incur a
//! percentage penalty routed to the contract owner), and designate a backup
//! address that may seize their balance once they have been inactive for the
//! configured interval.
//!
//! The library is the pure state machine: every transition takes the ledger,
//! the block time, and the caller, and either commits a new ledger together
//! with the outbound transfers and event attributes, or fails and leaves the
//! ledger untouched. The host glue (persistent storage, address validation,
//! message serialization) lives outside the library.

pub mod contract;
pub mod error;
pub mod laws;
pub mod msg;
pub mod numeral;
pub mod state;
