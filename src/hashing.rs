//! Hashing primitives: the 32-byte hash type, SCALE length prefixes, and the
//! calls into the Keccak hasher and the binary Merkle tree crate.
use binary_merkle_tree::Leaf;
use hash_db::Hasher;
use keccak_hasher::KeccakHasher;
use parity_scale_codec::Encode;
use vstd::prelude::*;

verus! {

/// Width in bytes of every hash handled by the library.
pub const HASH_LEN: usize = 32;

/// A Keccak-256 output, used both for leaves and for registry keys.
pub type H256 = [u8; 32];

/// The byte views of a sequence of hashes.
pub open spec fn hash_bytes(hs: Seq<H256>) -> Seq<Seq<u8>> {
    hs.map_values(|h: H256| h@)
}

/// The 32-byte all-zero value.
pub open spec fn zero_hash() -> Seq<u8> {
    Seq::new(32, |i: int| 0u8)
}

/// Little-endian bytes of the lowest `width` bytes of `n`.
pub open spec fn le_bytes(n: nat, width: nat) -> Seq<u8>
    decreases width,
{
    if width == 0 {
        Seq::empty()
    } else {
        seq![(n % 256) as u8] + le_bytes(n / 256, (width - 1) as nat)
    }
}

/// SCALE compact encoding of a collection length that fits in `u32`.
pub open spec fn compact_prefix(n: nat) -> Seq<u8> {
    if n < 0x40 {
        le_bytes(n * 4, 1)
    } else if n < 0x4000 {
        le_bytes(n * 4 + 1, 2)
    } else if n < 0x4000_0000 {
        le_bytes(n * 4 + 2, 4)
    } else {
        seq![3u8] + le_bytes(n, 4)
    }
}

/// SCALE encoding of a byte string: its compact length, then the bytes.
pub open spec fn scale_bytes(b: Seq<u8>) -> Seq<u8> {
    compact_prefix(b.len()) + b
}

/// Keccak-256 digest of a byte string.
pub uninterp spec fn keccak_256(data: Seq<u8>) -> Seq<u8>;

/// Root of the binary Merkle tree (Keccak-256) whose leaves, in order, are the
/// given byte strings.
pub uninterp spec fn merkle_root_of(leaves: Seq<Seq<u8>>) -> Seq<u8>;

/// Whether folding `proof` into the hash of `leaf`, placed at `leaf_index` in a
/// tree of `number_of_leaves` leaves, reproduces `root`.
pub uninterp spec fn proof_accepted(
    root: Seq<u8>,
    proof: Seq<Seq<u8>>,
    number_of_leaves: nat,
    leaf_index: nat,
    leaf: Seq<u8>,
) -> bool;

/// Relies on `<keccak_hasher::KeccakHasher as hash_db::Hasher>::hash`: the
/// Keccak-256 digest of the bytes.
#[verifier::external_body]
pub(crate) fn keccak(data: &Vec<u8>) -> (r: H256)
    ensures
        r@ == keccak_256(data@),
{
    <KeccakHasher as Hasher>::hash(data.as_slice())
}

/// Relies on `parity_scale_codec::Encode::encode` on a byte vector: the compact
/// length, then the bytes. It panics on more than `u32::MAX` elements.
#[verifier::external_body]
pub(crate) fn scale_encode(data: &Vec<u8>) -> (r: Vec<u8>)
    requires
        data@.len() <= u32::MAX,
    ensures
        r@ == scale_bytes(data@),
{
    data.encode()
}

/// Relies on `binary_merkle_tree::merkle_root` with the Keccak hasher: each leaf
/// is hashed, then the tree is folded pairwise; no leaves give a zero-filled hash.
#[verifier::external_body]
pub(crate) fn keccak_merkle_root(leaves: &Vec<H256>) -> (r: H256)
    ensures
        r@ == merkle_root_of(hash_bytes(leaves@)),
        leaves@.len() == 0 ==> r@ == zero_hash(),
{
    binary_merkle_tree::merkle_root::<KeccakHasher, _>(leaves.iter())
}

/// Relies on `binary_merkle_tree::verify_proof` with the Keccak hasher, the leaf
/// given as content to be hashed. It returns false when `leaf_index` is not below
/// `number_of_leaves`.
#[verifier::external_body]
pub(crate) fn keccak_verify_proof(
    root: &H256,
    proof: Vec<H256>,
    number_of_leaves: u32,
    leaf_index: u32,
    leaf: &H256,
) -> (r: bool)
    ensures
        r == proof_accepted(
            root@,
            hash_bytes(proof@),
            number_of_leaves as nat,
            leaf_index as nat,
            leaf@,
        ),
        leaf_index >= number_of_leaves ==> !r,
{
    binary_merkle_tree::verify_proof::<KeccakHasher, _, _>(
        root,
        proof,
        number_of_leaves,
        leaf_index,
        Leaf::Value(leaf.as_slice()),
    )
}

/// Byte equality of two hashes.
pub fn hash_eq(a: &H256, b: &H256) -> (r: bool)
    ensures
        r == (a@ == b@),
{
    let mut i: usize = 0;
    while i < HASH_LEN
        invariant
            i <= HASH_LEN,
            a@.len() == HASH_LEN,
            b@.len() == HASH_LEN,
            forall|j: int| 0 <= j < i ==> a@[j] == b@[j],
        decreases HASH_LEN - i,
    {
        if a[i] != b[i] {
            return false;
        }
        i = i + 1;
    }
    assert(a@ =~= b@);
    true
}

} // verus!
