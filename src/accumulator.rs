//! The leaf log: its append rule, its Merkle root, and inclusion checks.
use crate::hashing::{
    hash_bytes, keccak_merkle_root, keccak_verify_proof, merkle_root_of, proof_accepted,
    zero_hash, H256,
};
use vstd::prelude::*;

verus! {

/// The log after appending `leaf` under capacity `cap`, or `None` when it is full.
pub open spec fn appended(cap: nat, log: Seq<H256>, leaf: H256) -> Option<Seq<H256>> {
    if log.len() < cap {
        Some(log.push(leaf))
    } else {
        None
    }
}

/// The log after appending each of `leaves` in turn, or `None` once an append fails.
pub open spec fn append_run(cap: nat, log: Seq<H256>, leaves: Seq<H256>) -> Option<Seq<H256>>
    decreases leaves.len(),
{
    if leaves.len() == 0 {
        Some(log)
    } else {
        match append_run(cap, log, leaves.drop_last()) {
            Some(l) => appended(cap, l, leaves.last()),
            None => None,
        }
    }
}

/// Whether `leaf` at `leaf_index` is shown by `proof` to belong to `log`: the index
/// is in range and the proof reproduces the log's root.
pub open spec fn inclusion_holds(
    log: Seq<H256>,
    proof: Seq<H256>,
    leaf_index: nat,
    leaf: H256,
) -> bool {
    &&& leaf_index < log.len()
    &&& proof_accepted(
        merkle_root_of(hash_bytes(log)),
        hash_bytes(proof),
        log.len(),
        leaf_index,
        leaf@,
    )
}

/// Appends that stay within capacity all succeed: the log ends up as the old log
/// followed by the new leaves in call order, one more entry per call.
pub proof fn lemma_appends_keep_order(cap: nat, log: Seq<H256>, leaves: Seq<H256>)
    requires
        log.len() + leaves.len() <= cap,
    ensures
        append_run(cap, log, leaves) == Some(log + leaves),
        (log + leaves).len() == log.len() + leaves.len(),
    decreases leaves.len(),
{
    if leaves.len() > 0 {
        lemma_appends_keep_order(cap, log, leaves.drop_last());
        assert(log + leaves.drop_last() + seq![leaves.last()] =~= log + leaves);
        assert((log + leaves.drop_last()).push(leaves.last()) =~= log + leaves);
    } else {
        assert(log + leaves =~= log);
    }
}

/// The root depends on the leaf sequence alone: equal logs give equal roots.
pub proof fn lemma_root_deterministic(a: Seq<H256>, b: Seq<H256>)
    requires
        a == b,
    ensures
        merkle_root_of(hash_bytes(a)) == merkle_root_of(hash_bytes(b)),
{
}

/// The Merkle root of the log; an empty log has the all-zero root.
pub fn compute_root(log: &Vec<H256>) -> (r: H256)
    ensures
        r@ == merkle_root_of(hash_bytes(log@)),
        log@.len() == 0 ==> r@ == zero_hash(),
{
    keccak_merkle_root(log)
}

/// Checks that `proof` shows `leaf` at `leaf_index` in `log`, against the root
/// recomputed from the whole log. An index out of range gives false.
pub fn verify_inclusion(log: &Vec<H256>, proof: Vec<H256>, leaf_index: u32, leaf: &H256) -> (r:
    bool)
    requires
        log@.len() <= u32::MAX,
    ensures
        r == inclusion_holds(log@, proof@, leaf_index as nat, *leaf),
        leaf_index >= log@.len() ==> !r,
{
    if leaf_index as usize >= log.len() {
        return false;
    }
    let root = compute_root(log);
    keccak_verify_proof(&root, proof, log.len() as u32, leaf_index, leaf)
}

} // verus!
