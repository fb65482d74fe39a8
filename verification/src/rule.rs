//! The closed set of rule kinds, their canonical encodings, and the
//! accumulator that folds an ordered rule list into a single fingerprint.
//!
//! Every rule kind and the tree-embedding step share one hashing
//! primitive, so both the order and the content of the rules are
//! committed by the final 32-byte fingerprint.

use vstd::prelude::*;

use crate::errors::{BooleanTreeError, EngineError, TreasuryError};
use crate::hashing::{chain_step, generic_hash, push_bytes, tree_hash, tree_step, zero_hash};
use crate::ruleauthconstr::AuthorizationConstraint;
use crate::rulemaxbal::BalanceConstraint;
use crate::ruleprogconstr::ProgramConstraint;
use crate::ruleratelimiter::RateLimiter;
use crate::rulesweep::Sweep;
use crate::spend::{after_find, SpendState, SpendStateSlot, TransferContext};
use crate::tree;

verus! {

/// Kind tag of the rate-limiter rule.
pub const RULE_RATE_LIMITER: u8 = 1;

/// Kind tag of the program-constraint rule.
pub const RULE_PROGRAM_CONSTRAINT: u8 = 2;

/// Kind tag of the authorization-constraint rule.
pub const RULE_AUTHORIZATION_CONSTRAINT: u8 = 3;

/// Kind tag of the balance-constraint rule.
pub const RULE_BALANCE_CONSTRAINT: u8 = 4;

/// Kind tag of the sweep rule.
pub const RULE_SWEEP: u8 = 5;

/// The eight little-endian bytes of a 64-bit value.
pub open spec fn u64_le_bytes(x: u64) -> Seq<u8> {
    seq![
        (x & 0xFF) as u8,
        ((x >> 8) & 0xFF) as u8,
        ((x >> 16) & 0xFF) as u8,
        ((x >> 24) & 0xFF) as u8,
        ((x >> 32) & 0xFF) as u8,
        ((x >> 40) & 0xFF) as u8,
        ((x >> 48) & 0xFF) as u8,
        ((x >> 56) & 0xFF) as u8,
    ]
}

/// Appends the eight little-endian bytes of `x` to `v`.
pub fn push_u64_le(v: &mut Vec<u8>, x: u64)
    ensures
        final(v)@ == old(v)@ + u64_le_bytes(x),
{
    proof {
        assert((x & 0xFF) < 256 && ((x >> 8) & 0xFF) < 256 && ((x >> 16) & 0xFF) < 256 && ((x
            >> 24) & 0xFF) < 256 && ((x >> 32) & 0xFF) < 256 && ((x >> 40) & 0xFF) < 256 && ((x
            >> 48) & 0xFF) < 256 && ((x >> 56) & 0xFF) < 256) by (bit_vector);
    }
    v.push((x & 0xFF) as u8);
    v.push(((x >> 8) & 0xFF) as u8);
    v.push(((x >> 16) & 0xFF) as u8);
    v.push(((x >> 24) & 0xFF) as u8);
    v.push(((x >> 32) & 0xFF) as u8);
    v.push(((x >> 40) & 0xFF) as u8);
    v.push(((x >> 48) & 0xFF) as u8);
    v.push(((x >> 56) & 0xFF) as u8);
    proof {
        assert(v@ =~= old(v)@ + u64_le_bytes(x));
    }
}

/// One rule of the closed set.  Each variant carries its parameters and,
/// where the host supplies one, an observed value.
#[derive(Clone, Copy, Debug)]
pub enum RuleDescriptor {
    /// Bounds the rolling spend within a sliding window.
    RateLimiter(RateLimiter),
    /// Requires a named identity to have authorized the call.
    AuthorizationConstraint(AuthorizationConstraint),
    /// Requires the caller program to match.
    ProgramConstraint(ProgramConstraint),
    /// Caps the observed source balance.
    BalanceConstraint(BalanceConstraint),
    /// Authorizes draining to a fixed destination above a threshold.
    Sweep(Sweep),
}

impl RuleDescriptor {
    /// The kind tag of this rule.
    pub open spec fn spec_id(self) -> u8 {
        match self {
            RuleDescriptor::RateLimiter(_) => RULE_RATE_LIMITER,
            RuleDescriptor::AuthorizationConstraint(_) => RULE_AUTHORIZATION_CONSTRAINT,
            RuleDescriptor::ProgramConstraint(_) => RULE_PROGRAM_CONSTRAINT,
            RuleDescriptor::BalanceConstraint(_) => RULE_BALANCE_CONSTRAINT,
            RuleDescriptor::Sweep(_) => RULE_SWEEP,
        }
    }

    /// Returns the kind tag of this rule.
    pub fn id(&self) -> (r: u8)
        ensures
            r == self.spec_id(),
    {
        match self {
            RuleDescriptor::RateLimiter(_) => RULE_RATE_LIMITER,
            RuleDescriptor::AuthorizationConstraint(_) => RULE_AUTHORIZATION_CONSTRAINT,
            RuleDescriptor::ProgramConstraint(_) => RULE_PROGRAM_CONSTRAINT,
            RuleDescriptor::BalanceConstraint(_) => RULE_BALANCE_CONSTRAINT,
            RuleDescriptor::Sweep(_) => RULE_SWEEP,
        }
    }

    /// The canonical bytes hashed for this rule: its stable parameters
    /// only, never an observed value.
    pub open spec fn spec_canonical_bytes(self) -> Seq<u8> {
        match self {
            RuleDescriptor::RateLimiter(r) => r.spec_canonical_bytes(),
            RuleDescriptor::AuthorizationConstraint(r) => r.spec_canonical_bytes(),
            RuleDescriptor::ProgramConstraint(r) => r.spec_canonical_bytes(),
            RuleDescriptor::BalanceConstraint(r) => r.spec_canonical_bytes(),
            RuleDescriptor::Sweep(r) => r.spec_canonical_bytes(),
        }
    }

    /// Serializes this rule's canonical bytes.
    pub fn canonical_bytes(&self) -> (r: Vec<u8>)
        ensures
            r@ == self.spec_canonical_bytes(),
    {
        match self {
            RuleDescriptor::RateLimiter(r) => r.canonical_bytes(),
            RuleDescriptor::AuthorizationConstraint(r) => r.canonical_bytes(),
            RuleDescriptor::ProgramConstraint(r) => r.canonical_bytes(),
            RuleDescriptor::BalanceConstraint(r) => r.canonical_bytes(),
            RuleDescriptor::Sweep(r) => r.canonical_bytes(),
        }
    }

    /// Folds this rule into a fingerprint at position `index`.
    pub fn hash(&self, index: u8, prev_hash: &[u8]) -> (r: [u8; 32])
        ensures
            r@ == chain_step(index, self.spec_canonical_bytes(), prev_hash@),
    {
        let bytes = self.canonical_bytes();
        generic_hash(&index, bytes.as_slice(), prev_hash)
    }

    /// The ledger after this rule's evaluation: only the rate limiter
    /// touches it, by looking up or allocating its instrument's slot.
    pub open spec fn spec_state_after(self, list: Seq<SpendStateSlot>, ctx: TransferContext) -> Seq<
        SpendStateSlot,
    > {
        match self {
            RuleDescriptor::RateLimiter(r) => after_find(list, ctx.mint),
            _ => list,
        }
    }

    /// The rule's verdict against a ledger snapshot and transfer context.
    pub open spec fn spec_result(self, list: Seq<SpendStateSlot>, ctx: TransferContext) -> Result<
        (),
        TreasuryError,
    > {
        match self {
            RuleDescriptor::RateLimiter(r) => r.spec_result(list, ctx),
            RuleDescriptor::AuthorizationConstraint(r) => r.spec_result(),
            RuleDescriptor::ProgramConstraint(r) => r.spec_result(ctx),
            RuleDescriptor::BalanceConstraint(r) => r.spec_result(),
            RuleDescriptor::Sweep(r) => r.spec_result(ctx),
        }
    }

    /// Whether the rule's verdict is a pass.
    pub open spec fn spec_passes(self, list: Seq<SpendStateSlot>, ctx: TransferContext) -> bool {
        self.spec_result(list, ctx) is Ok
    }

    /// Evaluates this rule against the ledger and the transfer context.
    pub fn process(&self, state: &mut SpendState, context: &TransferContext) -> (r: Result<
        (),
        TreasuryError,
    >)
        ensures
            final(state)@ == self.spec_state_after(old(state)@, *context),
            r == self.spec_result(old(state)@, *context),
    {
        match self {
            RuleDescriptor::RateLimiter(r) => r.process(state, context),
            RuleDescriptor::AuthorizationConstraint(r) => r.process(state, context),
            RuleDescriptor::ProgramConstraint(r) => r.process(state, context),
            RuleDescriptor::BalanceConstraint(r) => r.process(state, context),
            RuleDescriptor::Sweep(r) => r.process(state, context),
        }
    }
}

/// Accumulates rules one at a time into the committed rule-set
/// fingerprint; append-only, with the declared rule count fixed by the
/// policy tree it was created from.
pub struct RuleAccumulator {
    /// The authorization unit this rule set belongs to.
    pub controller: [u8; 32],
    /// The index the next rule will be folded at.
    pub index: u8,
    /// The declared rule count, from the policy tree's leaf indices.
    pub count: u8,
    /// The running fingerprint.
    pub hash: [u8; 32],
}

impl RuleAccumulator {
    /// The all-zero fingerprint every chain starts from.
    pub fn hash_init() -> (r: [u8; 32])
        ensures
            r@ == zero_hash(),
    {
        crate::hashing::hash_init()
    }

    /// Builds an accumulator bound to `controller`: decodes the policy
    /// tree to fix the declared rule count, then folds the tree bytes
    /// into the seed fingerprint.
    pub fn new(controller: &[u8; 32], tree: &[u8]) -> (r: Result<Self, EngineError>)
        ensures
            (match r {
                Ok(ra) => {
                    &&& tree::spec_parse(tree@, 0) matches Ok((t, p)) && p == tree@.len()
                        && tree::covered(t) && ra.count == tree::max_leaf(t) + 1
                    &&& ra.controller == *controller
                    &&& ra.index == 0
                    &&& ra.hash@ == tree_step(zero_hash(), tree@)
                },
                Err(EngineError::Tree(e)) => tree::spec_decode_err(tree@, e),
                Err(EngineError::Treasury(_)) => false,
            }),
    {
        let mut tv: Vec<u8> = Vec::new();
        push_bytes(&mut tv, tree);
        let count = match tree::deserialize(&tv) {
            Ok((_t, c)) => c,
            Err(e) => {
                return Err(EngineError::Tree(e));
            },
        };
        let mut ra = RuleAccumulator {
            controller: *controller,
            index: 0,
            count,
            hash: RuleAccumulator::hash_init(),
        };
        ra.hash_tree(&tv);
        Ok(ra)
    }

    /// Re-initializes this accumulator in place, as `new` does.
    pub fn init(&mut self, controller: &[u8; 32], tree: &[u8]) -> (r: Result<(), EngineError>)
        ensures
            (match r {
                Ok(_) => {
                    &&& tree::spec_parse(tree@, 0) matches Ok((t, p)) && p == tree@.len()
                        && tree::covered(t) && final(self).count == tree::max_leaf(t) + 1
                    &&& final(self).controller == *controller
                    &&& final(self).index == 0
                    &&& final(self).hash@ == tree_step(zero_hash(), tree@)
                },
                Err(EngineError::Tree(e)) => tree::spec_decode_err(tree@, e) && *final(self) == *old(
                    self,
                ),
                Err(EngineError::Treasury(_)) => false,
            }),
    {
        let ra = match RuleAccumulator::new(controller, tree) {
            Ok(ra) => ra,
            Err(e) => {
                return Err(e);
            },
        };
        self.controller = ra.controller;
        self.index = ra.index;
        self.count = ra.count;
        self.hash = ra.hash;
        Ok(())
    }

    /// Folds the serialized policy tree into the running fingerprint.
    pub fn hash_tree(&mut self, tree: &Vec<u8>)
        ensures
            final(self).hash@ == tree_step(old(self).hash@, tree@),
            final(self).controller == old(self).controller,
            final(self).index == old(self).index,
            final(self).count == old(self).count,
    {
        self.hash = tree_hash(self.hash.as_slice(), tree.as_slice());
    }

    /// Appends one rule: folds its canonical bytes into the fingerprint
    /// at the current index.  Fails, changing nothing, once the declared
    /// rule count is reached.
    pub fn add(&mut self, rule: &RuleDescriptor) -> (r: Result<(), TreasuryError>)
        ensures
            (match r {
                Ok(_) => {
                    &&& old(self).index < old(self).count
                    &&& final(self).hash@ == chain_step(
                        old(self).index,
                        rule.spec_canonical_bytes(),
                        old(self).hash@,
                    )
                    &&& final(self).index == old(self).index + 1
                    &&& final(self).controller == old(self).controller
                    &&& final(self).count == old(self).count
                },
                Err(e) => {
                    &&& e == TreasuryError::RuleOutOfRange
                    &&& old(self).index >= old(self).count
                    &&& *final(self) == *old(self)
                },
            }),
    {
        if self.index >= self.count {
            return Err(TreasuryError::RuleOutOfRange);
        }
        self.hash = rule.hash(self.index, self.hash.as_slice());
        self.index = self.index + 1;
        Ok(())
    }
}

/// The fingerprint after folding the first `k` rule encodings, in order,
/// from the all-zero seed.
pub open spec fn chain_at(rules: Seq<Seq<u8>>, k: int) -> Seq<u8>
    decreases k,
{
    if k <= 0 {
        zero_hash()
    } else {
        chain_step((k - 1) as u8, rules[k - 1], chain_at(rules, k - 1))
    }
}

/// Building a rule set is deterministic: folding the same rule encodings
/// in the same order from the all-zero seed yields the same fingerprint.
pub proof fn lemma_chain_deterministic(rules1: Seq<Seq<u8>>, rules2: Seq<Seq<u8>>, k: int)
    requires
        k <= rules1.len(),
        k <= rules2.len(),
        forall|j: int| 0 <= j < k ==> rules1[j] == rules2[j],
    ensures
        chain_at(rules1, k) == chain_at(rules2, k),
    decreases k,
{
    if k > 0 {
        lemma_chain_deterministic(rules1, rules2, k - 1);
    }
}

/// Distinct rule encodings give distinct inputs to the chain's digest at
/// the step where they differ; distinct fingerprints then follow from
/// the digest's collision resistance, which lies outside this library.
pub proof fn lemma_chain_input_distinct(index: u8, prev: Seq<u8>, a: Seq<u8>, b: Seq<u8>)
    requires
        a != b,
    ensures
        seq![index] + prev + a != seq![index] + prev + b,
{
    let la = seq![index] + prev + a;
    let lb = seq![index] + prev + b;
    if a.len() != b.len() {
        assert(la.len() != lb.len());
    } else {
        assert(exists|k: int| 0 <= k < a.len() && a[k] != b[k]) by {
            if !(exists|k: int| 0 <= k < a.len() && a[k] != b[k]) {
                assert forall|k: int| 0 <= k < a.len() implies a[k] == b[k] by {}
                assert(a =~= b);
            }
        }
        let k = choose|k: int| 0 <= k < a.len() && a[k] != b[k];
        assert(la[1 + prev.len() + k] == a[k]);
        assert(lb[1 + prev.len() + k] == b[k]);
    }
}

} // verus!
