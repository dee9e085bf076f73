//! An append-only log of leaf hashes with Merkle inclusion proofs, and a
//! registry of bounded paper records keyed by the hash of their title.
pub mod accumulator;
pub mod config;
pub mod hashing;
pub mod pallet;
pub mod registry;

pub use config::{Config, Error, Event};
pub use pallet::Pallet;
pub use registry::PaperMetadata;
