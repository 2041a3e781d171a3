//! A multi-poll voting ledger.
//!
//! Administrators open named polls with a bounded set of options, every
//! address holds at most one ballot per poll and may recast it, and a closed
//! poll accepts no further votes. The tally of every option always equals the
//! number of ballots that currently name it.
//!
//! The crate has three layers.
//!
//! * [`model`] says what the ledger is and what every operation does to it,
//!   over sequences and maps. [`agreement`] proves that the operations keep
//!   tallies and ballots in agreement, and [`theorems`] states what follows
//!   for every ledger and every command.
//! * [`rules`] holds the operations on single records: a poll, a ballot, the
//!   list of administrators. A host that keeps its records in a database
//!   reads the records that a call touches, applies a rule, and writes the
//!   result back.
//! * [`contract`] holds the [`contract::Ledger`], which keeps all records in
//!   memory in the stores of [`store`], and the commands and questions on it.
//!
//! [`state`], [`msg`], [`context`], [`report`] and [`error`] hold the records,
//! the messages, what comes with a call, what a call reports, and how it can
//! fail. [`text`] orders identifiers and [`table`] reads a pair of lists as a
//! dictionary.

pub mod agreement;
pub mod context;
pub mod contract;
pub mod error;
pub mod model;
pub mod msg;
pub mod report;
pub mod rules;
pub mod state;
pub mod store;
pub mod table;
pub mod text;
pub mod theorems;

pub use crate::error::ContractError;
