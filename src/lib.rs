//! The durable-state core of a wallet: changesets over a chain ledger, a
//! transaction graph and a keychain index, the algebra that merges them,
//! and the contract that persistence backends meet.
pub mod chain;
pub mod changeset;
pub mod conformance;
pub mod entries;
pub mod keychain;
pub mod laws;
pub mod persist;
pub mod primitives;
pub mod tx_graph;
