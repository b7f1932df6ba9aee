//! An expense-splitting ledger: actors create groups, join them, record
//! shared expenses and log payments between members.
//!
//! The ledger is an explicitly owned value. A [`services::Service`] holds the
//! store of groups and the identifier generator; every operation takes the
//! identity of the calling actor as an argument.

pub mod identity;
pub mod model;
pub mod services;
pub mod states;
pub mod utils;
