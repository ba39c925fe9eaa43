//! A small ledger core: fixed-point money, account keys, the identity
//! mapping between platform identifiers and accounts, and the transfer
//! protocol that moves money between two accounts.

pub mod client;
pub mod course;
pub mod decimal;
pub mod discord_id;
pub mod error;
pub mod key;
pub mod laws;
pub mod ledger;
pub mod model;
pub mod money;
pub mod parse;
pub mod payment;
pub mod registration;
pub mod store;
pub mod timestamp;
pub mod types;
