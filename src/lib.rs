//! A hierarchical name registry: names and owner-issued subdomains mapped to
//! resolver addresses, with fee-funded, time-bounded ownership.
//!
//! The registry keeps a ledger of name records and decides every command
//! against it; the ownership token that mirrors each name lives with an
//! outside collaborator, which the registry drives through the effects it
//! returns.
pub mod contract;
pub mod error;
pub mod handlers;
pub mod laws;
pub mod ledger;
pub mod metadata;
pub mod msg;
pub mod order;
pub mod payment;
pub mod query;
pub mod state;
pub mod validate;
