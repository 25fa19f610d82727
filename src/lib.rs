//! Address-indexed queries over a ledger split into a finalized and a
//! non-finalized region: the location model, checked balance arithmetic,
//! the race-checked finalized read and the merges of both regions.

pub mod address;
pub mod amount;
pub mod balance;
pub mod finalized_read;
pub mod location;
pub mod location_map;
pub mod transparent;
pub mod tx_id;
pub mod utxo;
