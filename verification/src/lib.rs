//! Client-side core of a ledger access library: key material, the versioned
//! wire form of transactions and events, transaction assembly and signing,
//! the submission protocol's decisions, and the event stream's pull logic.

pub mod client;
pub mod crypto;
pub mod error;
pub mod events;
pub mod hextext;
pub mod transaction;
pub mod wire;
