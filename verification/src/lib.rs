//! The books of a decentralized storage network, verified.
//!
//! Accounts buy leases of storage space, declare content-addressed files and
//! have them stored on miners; miners prove idle capacity with fillers, which
//! go as files arrive; a daily sweep freezes and expires leases; and an audit
//! round draws, reproducibly, the fillers and files whose shards the miners
//! have to prove.
//!
//! * [`file_bank`] is the ledger: its state, its view as mathematical maps,
//!   and the operations on it, each with a contract over that view.
//! * [`tee_worker`] is the registry of the coordinators that may commit
//!   uploads and fillers.
//! * [`quota`] holds the arithmetic of leases: packages, prices, deadlines.
//! * [`sampler`] draws the indices of an audit round from a source of
//!   randomness.
//! * [`ordered_map`], [`list`], [`bytes`] and [`duplicate`] are the
//!   collections underneath: maps in key order, lists, byte strings.
//! * [`types`] holds the records, the errors and the effects.
//! * [`rpc`] holds the settings of the node's Ethereum-compatible interface.
//!
//! The ledger talks to no service. What it needs to know of the services around
//! it (whether a miner is in good standing, what capacity it has proved, what
//! the random beacon answers) comes in as arguments, and what it wants done by
//! them (a transfer, a change of a miner's capacity, a notice) goes out as a
//! list of [`types::Effect`]s for the caller to carry out. An operation that
//! fails leaves the ledger as it was; the daily sweep does not fail, and a
//! lease past its days of grace expires whatever its account holds.

pub mod bytes;
mod codec;
pub mod duplicate;
pub mod file_bank;
pub mod list;
pub mod ordered_map;
pub mod quota;
pub mod rpc;
pub mod sampler;
pub mod tee_worker;
pub mod types;
