//! The configured bounds, the outcome notifications, and the error kinds.
use crate::hashing::H256;
use vstd::prelude::*;

verus! {

/// The bounds that every stored value is held to.
#[derive(Clone, Copy, Debug, PartialEq, Eq, Structural)]
pub struct Config {
    /// Most leaves the log may hold.
    pub max_leaves: u32,
    /// Longest opaque vector payload of a paper, in bytes.
    pub max_vector_length: u32,
    /// Most keywords of a paper.
    pub max_keywords: u32,
    /// Longest title, and longest keyword, in bytes.
    pub max_title_length: u32,
    /// Longest author list, in bytes.
    pub max_authors_length: u32,
    /// Longest abstract, in bytes.
    pub max_abstract_length: u32,
    /// Longest storage locator, in bytes.
    pub max_ipfs_url_length: u32,
}

/// A notification recorded by a successful or audited operation.
#[derive(Clone, Copy, Debug, PartialEq, Eq)]
pub enum Event {
    /// A leaf was appended to the log.
    LeafAdded(H256),
    /// An inclusion proof was checked, with its outcome.
    ProofVerified(bool),
    /// A paper was stored under this key.
    PaperAdded(H256),
}

/// Why an operation was refused.
#[derive(Clone, Copy, Debug, PartialEq, Eq, Structural)]
pub enum Error {
    /// The inclusion proof did not hold.
    ProofVerificationFailed,
    /// The leaf log is full.
    TooManyLeaves,
    /// The vector payload is too long.
    VectorTooLong,
    /// There are too many keywords.
    TooManyKeywords,
    /// The title, or one of the keywords, is too long.
    TitleTooLong,
    /// The author list is too long.
    AuthorsTooLong,
    /// The abstract is too long.
    AbstractTooLong,
    /// The storage locator is too long.
    IpfsUrlTooLong,
}

} // verus!
