//! The hashing primitive and the hash-chain step shared by every rule kind.
//!
//! A rule set is committed by folding each rule's canonical bytes into a
//! running 32-byte fingerprint, one rule at a time and order-sensitively:
//! `fold(prev, index, bytes) = digest(index_byte || prev || bytes)`.

use vstd::prelude::*;

verus! {

/// The digest of a byte sequence under the engine's 32-byte hash primitive.
/// The digest is a function of the input bytes alone.
pub uninterp spec fn digest32(data: Seq<u8>) -> Seq<u8>;

/// Relies on `anchor_lang::solana_program::hash::hash` (SHA-256): the
/// returned 32-byte digest depends on the input bytes alone.
#[verifier::external_body]
fn sha256(data: &[u8]) -> (r: [u8; 32])
    ensures
        r@ == digest32(data@),
{
    anchor_lang::solana_program::hash::hash(data).to_bytes()
}

/// The all-zero seed every hash chain starts from.
pub open spec fn zero_hash() -> Seq<u8> {
    Seq::new(32, |i: int| 0u8)
}

/// The chain step: the digest of the rule index, the previous fingerprint
/// and the rule's canonical bytes, in that order.
pub open spec fn chain_step(index: u8, serialized_rule: Seq<u8>, prev_hash: Seq<u8>) -> Seq<u8> {
    digest32(seq![index] + prev_hash + serialized_rule)
}

/// The tree-binding step: the digest of the previous fingerprint followed
/// by the serialized policy tree, with no index byte.
pub open spec fn tree_step(prev_hash: Seq<u8>, tree: Seq<u8>) -> Seq<u8> {
    digest32(prev_hash + tree)
}

/// Appends a copy of `src` to `dst`.
pub fn push_bytes(dst: &mut Vec<u8>, src: &[u8])
    ensures
        final(dst)@ == old(dst)@ + src@,
{
    let mut i: usize = 0;
    while i < src.len()
        invariant
            i <= src@.len(),
            dst@ == old(dst)@ + src@.subrange(0, i as int),
        decreases src@.len() - i,
    {
        dst.push(src[i]);
        i = i + 1;
        proof {
            assert(dst@ == old(dst)@ + src@.subrange(0, i as int));
        }
    }
    proof {
        assert(src@.subrange(0, src@.len() as int) == src@);
    }
}

/// Computes one hash-chain step over a rule's canonical bytes.
pub fn generic_hash(index: &u8, serialized_rule: &[u8], prev_hash: &[u8]) -> (r: [u8; 32])
    ensures
        r@ == chain_step(*index, serialized_rule@, prev_hash@),
{
    let mut all: Vec<u8> = Vec::new();
    all.push(*index);
    push_bytes(&mut all, prev_hash);
    push_bytes(&mut all, serialized_rule);
    proof {
        assert(all@ == seq![*index] + prev_hash@ + serialized_rule@);
    }
    sha256(all.as_slice())
}

/// Computes the tree-binding step: the digest of `prev_hash || tree`.
pub fn tree_hash(prev_hash: &[u8], tree: &[u8]) -> (r: [u8; 32])
    ensures
        r@ == tree_step(prev_hash@, tree@),
{
    let mut all: Vec<u8> = Vec::new();
    push_bytes(&mut all, prev_hash);
    push_bytes(&mut all, tree);
    proof {
        assert(all@ == prev_hash@ + tree@);
    }
    sha256(all.as_slice())
}

/// Returns the all-zero fingerprint every chain starts from.
pub fn hash_init() -> (r: [u8; 32])
    ensures
        r@ == zero_hash(),
{
    let r = [0u8; 32];
    proof {
        assert(r@ =~= zero_hash());
    }
    r
}

/// Compares two byte strings for equality, byte for byte.
pub fn hash_is_equal(a: &[u8], b: &[u8]) -> (r: bool)
    ensures
        r == (a@ == b@),
{
    if a.len() != b.len() {
        proof {
            assert(a@.len() != b@.len());
        }
        return false;
    }
    let mut i: usize = 0;
    while i < a.len()
        invariant
            i <= a@.len(),
            a@.len() == b@.len(),
            forall|j: int| 0 <= j < i ==> a@[j] == b@[j],
        decreases a@.len() - i,
    {
        if a[i] != b[i] {
            return false;
        }
        i = i + 1;
    }
    proof {
        assert(a@ =~= b@);
    }
    true
}

} // verus!
