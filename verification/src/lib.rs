//! A token ledger with an append-only transaction history and the bookkeeping
//! of three best-candidate registries: proof-of-work solutions, offers and
//! governance proposals.
//!
//! Every operation is a method on an owned value and runs to completion: the
//! caller's identity and the current time are passed in as plain arguments, so
//! that one call is one atomic step of the state machine.

pub mod account;
pub mod digest;
pub mod history;
pub mod laws;
pub mod ledger;
pub mod maintainers;
pub mod modules;
pub mod offers;
pub mod proposals;
pub mod service;
pub mod solutions;
pub mod token;
