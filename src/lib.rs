//! A small peer-to-peer ledger: hash-linked blocks extended by proof of work,
//! validated pair by pair, and reconciled between peers by a fork-choice rule.
pub mod block;
pub mod chain;
pub mod hashing;
pub mod p2p;

pub use block::Block;
pub use chain::{BlockError, Chain, ForkError};
pub use hashing::{calculate_hash, hash_to_binary};
