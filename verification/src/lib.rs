//! Verified core of a blockchain payment gateway.
//!
//! A merchant creates a payment request carrying a unique memo; a customer
//! sends funds on-chain tagged with that memo.  The library holds the
//! reconciliation pipeline: parsing a raw chain transaction into a payment
//! signal, matching the signal's memo against pending requests, enqueueing a
//! confirmation job idempotently, and applying the `pending -> confirmed`
//! transition exactly once.  All I/O (RPC, relational store, queue transport)
//! lives outside; the library works on plain values.

pub mod config;
pub mod indexer;
pub mod memo;
pub mod models;
pub mod parser;
pub mod queue;
pub mod store;
pub mod time;
pub mod worker;

