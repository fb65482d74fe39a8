//! The bounded rolling-window spend ledger and the transfer context.
//!
//! The ledger is a fixed-capacity table of per-funding-instrument slots,
//! each recording the last spend amount and the last update time.  A slot
//! is either blank (its instrument key is all zero) or bound to exactly
//! one instrument; lookup-or-allocate scans for a matching instrument
//! first, then for the first blank slot, and otherwise fails.

use vstd::prelude::*;

use crate::delegate::{same_config, Delegation};
use crate::errors::{EngineError, TreasuryError};
use crate::hashing::{
    chain_step, hash_init, hash_is_equal, push_bytes, tree_hash, tree_step, zero_hash,
};
use crate::rule::RuleDescriptor;
use crate::tree;

verus! {

/// Whether a 32-byte key is the all-zero blank sentinel.
pub open spec fn key_is_zero(k: [u8; 32]) -> bool {
    k@ == zero_hash()
}

/// One ledger slot: the instrument it is bound to, a request counter, and
/// the last recorded spend and its time.
#[derive(Clone, Copy, Debug)]
pub struct SpendStateSlot {
    /// Funding instrument this slot is bound to; all zero when blank.
    pub mint: [u8; 32],
    /// Number of spend requests opened against this slot.
    pub index: u64,
    /// Amount of the last committed rate-limited spend.
    pub last_spend: u64,
    /// Logical time of the last committed rate-limited spend.
    pub last_slot: u64,
    /// Reserved scoring byte.
    pub generic_score: u8,
}

impl SpendStateSlot {
    /// A blank slot, bound to no instrument.
    pub fn new() -> (r: SpendStateSlot)
        ensures
            key_is_zero(r.mint),
            r.index == 0,
            r.last_spend == 0,
            r.last_slot == 0,
            r.generic_score == u8::MAX - 1,
    {
        SpendStateSlot {
            mint: hash_init(),
            index: 0,
            last_spend: 0,
            last_slot: 0,
            generic_score: u8::MAX - 1,
        }
    }

    /// Whether this slot is blank.
    pub fn is_blank(&self) -> (r: bool)
        ensures
            r == key_is_zero(self.mint),
    {
        let z = hash_init();
        hash_is_equal(self.mint.as_slice(), z.as_slice())
    }
}

/// Whether a slot is bound to the given instrument.
pub open spec fn slot_matches(s: SpendStateSlot, mint: [u8; 32]) -> bool {
    !key_is_zero(s.mint) && s.mint@ == mint@
}

/// Whether a slot carries exactly the fields of a freshly created one.
pub open spec fn slot_is_fresh(s: SpendStateSlot) -> bool {
    &&& key_is_zero(s.mint)
    &&& s.index == 0
    &&& s.last_spend == 0
    &&& s.last_slot == 0
    &&& s.generic_score == u8::MAX - 1
}

/// The first slot at or after `k` bound to `mint`, if any.
pub open spec fn first_match_from(list: Seq<SpendStateSlot>, mint: [u8; 32], k: int) -> Option<int>
    decreases list.len() - k,
{
    if k < 0 || k >= list.len() {
        None
    } else if slot_matches(list[k], mint) {
        Some(k)
    } else {
        first_match_from(list, mint, k + 1)
    }
}

/// The first blank slot at or after `k`, if any.
pub open spec fn first_blank_from(list: Seq<SpendStateSlot>, k: int) -> Option<int>
    decreases list.len() - k,
{
    if k < 0 || k >= list.len() {
        None
    } else if key_is_zero(list[k].mint) {
        Some(k)
    } else {
        first_blank_from(list, k + 1)
    }
}

/// A found blank lies in range, is blank, and nothing before it is blank.
pub proof fn lemma_first_blank_range(list: Seq<SpendStateSlot>, k: int)
    ensures
        first_blank_from(list, k) matches Some(i) ==> {
            &&& k <= i < list.len()
            &&& key_is_zero(list[i].mint)
            &&& forall|j: int| k <= j < i ==> !key_is_zero((#[trigger] list[j]).mint)
        },
    decreases list.len() - k,
{
    if 0 <= k < list.len() && !key_is_zero(list[k].mint) {
        lemma_first_blank_range(list, k + 1);
    }
}

/// The slot the deterministic scan settles on: the first slot bound to
/// `mint`, else the first blank slot, else none.
pub open spec fn find_slot(list: Seq<SpendStateSlot>, mint: [u8; 32]) -> Option<int> {
    match first_match_from(list, mint, 0) {
        Some(i) => Some(i),
        None => first_blank_from(list, 0),
    }
}

/// The ledger after a lookup-or-allocate for `mint`: unchanged if a bound
/// slot exists, else the first blank slot bound to `mint`, else unchanged.
pub open spec fn after_find(list: Seq<SpendStateSlot>, mint: [u8; 32]) -> Seq<SpendStateSlot> {
    match first_match_from(list, mint, 0) {
        Some(_) => list,
        None => match first_blank_from(list, 0) {
            Some(i) => list.update(i, SpendStateSlot { mint, ..list[i] }),
            None => list,
        },
    }
}

/// Lookup-or-allocate keeps the ledger's capacity.
pub proof fn lemma_after_find_len(list: Seq<SpendStateSlot>, mint: [u8; 32])
    ensures
        after_find(list, mint).len() == list.len(),
{
    match first_match_from(list, mint, 0) {
        Some(_) => {},
        None => {
            match first_blank_from(list, 0) {
                Some(i) => {
                    lemma_first_blank_range(list, 0);
                },
                None => {},
            }
        },
    }
}

/// The ledger after committing a transfer: the slot for the context's
/// instrument is bound, and, unless the transfer is a sweep, its last
/// spend and time are overwritten with the committed transfer's values.
pub open spec fn spec_commit(list: Seq<SpendStateSlot>, ctx: TransferContext) -> Seq<
    SpendStateSlot,
> {
    let bound = after_find(list, ctx.mint);
    match find_slot(list, ctx.mint) {
        None => list,
        Some(i) => if ctx.is_sweep {
            bound
        } else {
            bound.update(
                i,
                SpendStateSlot {
                    last_slot: ctx.slot,
                    last_spend: ctx.amount,
                    generic_score: 0,
                    ..bound[i]
                },
            )
        },
    }
}

/// The rolling-window spend ledger: a fixed-capacity list of slots.
pub struct SpendState {
    /// The slots, one per tracked funding instrument.
    pub list: Vec<SpendStateSlot>,
}

impl View for SpendState {
    type V = Seq<SpendStateSlot>;

    open spec fn view(&self) -> Seq<SpendStateSlot> {
        self.list@
    }
}

impl Clone for SpendState {
    /// A deep copy with the same slots.
    fn clone(&self) -> (res: Self)
        ensures
            res@ == self@,
    {
        let mut list: Vec<SpendStateSlot> = Vec::new();
        let mut k: usize = 0;
        while k < self.list.len()
            invariant
                k <= self.list@.len(),
                list@ == self.list@.subrange(0, k as int),
            decreases self.list@.len() - k,
        {
            list.push(self.list[k]);
            k = k + 1;
        }
        proof {
            assert(self.list@.subrange(0, self.list@.len() as int) =~= self.list@);
        }
        SpendState { list }
    }
}

impl SpendState {
    /// A fresh ledger of `size` blank slots.
    pub fn new(size: u8) -> (r: Self)
        ensures
            r@.len() == size,
            forall|k: int| 0 <= k < size ==> slot_is_fresh(#[trigger] r@[k]),
    {
        let mut list: Vec<SpendStateSlot> = Vec::new();
        let mut k: usize = 0;
        while k < size as usize
            invariant
                k <= size as usize,
                list@.len() == k,
                forall|j: int| 0 <= j < k ==> slot_is_fresh(#[trigger] list@[j]),
            decreases size as usize - k,
        {
            list.push(SpendStateSlot::new());
            k = k + 1;
        }
        SpendState { list }
    }

    /// Resets every slot whose last update lies before `cut_off_slot`.
    pub fn clean(&mut self, cut_off_slot: u64)
        ensures
            final(self)@.len() == old(self)@.len(),
            forall|k: int|
                0 <= k < old(self)@.len() ==> if old(self)@[k].last_slot < cut_off_slot {
                    slot_is_fresh(#[trigger] final(self)@[k])
                } else {
                    final(self)@[k] == old(self)@[k]
                },
    {
        let n = self.list.len();
        let mut k: usize = 0;
        while k < n
            invariant
                k <= n,
                n == self@.len(),
                old(self)@.len() == n,
                forall|j: int| k <= j < n ==> #[trigger] self@[j] == old(self)@[j],
                forall|j: int|
                    0 <= j < k ==> if old(self)@[j].last_slot < cut_off_slot {
                        slot_is_fresh(#[trigger] self@[j])
                    } else {
                        self@[j] == old(self)@[j]
                    },
            decreases n - k,
        {
            if self.list[k].last_slot < cut_off_slot {
                let blank = SpendStateSlot::new();
                self.list[k] = blank;
            }
            k = k + 1;
        }
    }

    /// Looks up the slot for `mint`, or allocates the first blank slot to
    /// it; the scan is deterministic.  Fails when every slot is bound to
    /// some other instrument.
    pub fn find(&mut self, mint: &[u8; 32]) -> (r: Result<usize, TreasuryError>)
        ensures
            final(self)@ == after_find(old(self)@, *mint),
            (match r {
                Ok(i) => find_slot(old(self)@, *mint) == Some(i as int) && i < old(self)@.len(),
                Err(e) => e == TreasuryError::SpendRequestNoSpace && find_slot(old(self)@, *mint)
                    is None,
            }),
    {
        let n = self.list.len();
        let mut empty: Option<usize> = None;
        let mut idx: usize = 0;
        while idx < n
            invariant
                idx <= n,
                n == self@.len(),
                self@ == old(self)@,
                first_match_from(self@, *mint, 0) == first_match_from(self@, *mint, idx as int),
                (match empty {
                    Some(e) => first_blank_from(self@, 0) == Some(e as int) && e < n,
                    None => first_blank_from(self@, 0) == first_blank_from(self@, idx as int),
                }),
            decreases n - idx,
        {
            let s = self.list[idx];
            let blank = s.is_blank();
            if blank {
                if empty.is_none() {
                    empty = Some(idx);
                }
            } else {
                let z = hash_is_equal(s.mint.as_slice(), mint.as_slice());
                if z {
                    return Ok(idx);
                }
            }
            idx = idx + 1;
        }
        match empty {
            Some(e) => {
                let mut slot = self.list[e];
                slot.mint = *mint;
                self.list[e] = slot;
                Ok(e)
            },
            None => Err(TreasuryError::SpendRequestNoSpace),
        }
    }

    /// Commits a completed transfer into the ledger: sweeps leave the
    /// rate-limit history untouched; any other transfer overwrites its
    /// slot's last spend and time.
    pub fn update(&mut self, txctx: &TransferContext) -> (r: Result<(), TreasuryError>)
        ensures
            final(self)@ == spec_commit(old(self)@, *txctx),
            (match r {
                Ok(_) => find_slot(old(self)@, txctx.mint) is Some,
                Err(e) => e == TreasuryError::SpendRequestNoSpace && find_slot(
                    old(self)@,
                    txctx.mint,
                ) is None,
            }),
    {
        let i = match self.find(&txctx.mint) {
            Ok(i) => i,
            Err(e) => {
                return Err(e);
            },
        };
        if !txctx.is_sweep {
            let mut slot = self.list[i];
            slot.last_slot = txctx.slot;
            slot.last_spend = txctx.amount;
            slot.generic_score = 0;
            self.list[i] = slot;
        }
        Ok(())
    }
}

/// The immutable snapshot of one proposed transfer; every rule evaluates
/// against the same snapshot.
#[derive(Clone, Copy, Debug)]
pub struct TransferContext {
    /// Program owning the destination, checked by program constraints.
    pub program_id: [u8; 32],
    /// Identity linking the steps of one authorization workflow.
    pub linker: [u8; 32],
    /// Funding source of the transfer.
    pub source_vault: [u8; 32],
    /// Destination of the transfer.
    pub destination_vault: [u8; 32],
    /// Funding instrument being spent.
    pub mint: [u8; 32],
    /// Amount to transfer.
    pub amount: u64,
    /// Logical time the request was created at.
    pub slot: u64,
    /// Whether a sweep rule marked this transfer; sweeps do not update
    /// rate-limit history.
    pub is_sweep: bool,
}

impl TransferContext {
    /// A fresh snapshot; not a sweep until a sweep rule marks it.
    pub fn new(
        mint: &[u8; 32],
        program_id: &[u8; 32],
        authorizer: &[u8; 32],
        source_vault: &[u8; 32],
        destination_vault: &[u8; 32],
        amount: &u64,
        slot: &u64,
    ) -> (r: Self)
        ensures
            r == (TransferContext {
                program_id: *program_id,
                linker: *authorizer,
                source_vault: *source_vault,
                destination_vault: *destination_vault,
                mint: *mint,
                amount: *amount,
                slot: *slot,
                is_sweep: false,
            }),
    {
        TransferContext {
            is_sweep: false,
            mint: *mint,
            program_id: *program_id,
            linker: *authorizer,
            source_vault: *source_vault,
            destination_vault: *destination_vault,
            amount: *amount,
            slot: *slot,
        }
    }
}

/// Lookup-or-allocate changes at most one slot's binding; every slot's
/// counters and history are preserved.
pub proof fn lemma_after_find_preserves(list: Seq<SpendStateSlot>, mint: [u8; 32])
    ensures
        after_find(list, mint).len() == list.len(),
        forall|k: int|
            0 <= k < list.len() ==> {
                &&& (#[trigger] after_find(list, mint)[k]).index == list[k].index
                &&& after_find(list, mint)[k].last_spend == list[k].last_spend
                &&& after_find(list, mint)[k].last_slot == list[k].last_slot
                &&& after_find(list, mint)[k].generic_score == list[k].generic_score
            },
{
    match first_match_from(list, mint, 0) {
        Some(_) => {},
        None => {
            match first_blank_from(list, 0) {
                Some(b) => {
                    lemma_first_blank_range(list, 0);
                },
                None => {},
            }
        },
    }
}

/// The maximum serialized size of a policy tree carried by a request.
pub const TREE_MAX_SIZE: usize = 300;

/// The ledger after a spend request reserves the slot for `mint`: the
/// slot is bound and its request counter stepped.
pub open spec fn spec_reserve(list: Seq<SpendStateSlot>, mint: [u8; 32]) -> Seq<SpendStateSlot> {
    match find_slot(list, mint) {
        None => list,
        Some(i) => {
            let bound = after_find(list, mint);
            bound.update(
                i,
                SpendStateSlot { mint, index: (bound[i].index + 1) as u64, ..bound[i] },
            )
        },
    }
}

/// The outcome bitmask with bit `i` set; outcome bits past the mask
/// width are discarded.
pub open spec fn set_outcome_bit(mask: u64, i: u8) -> u64 {
    if i < 64 {
        mask | (1u64 << (i as u64))
    } else {
        mask
    }
}

/// One in-flight transfer authorization: a ledger snapshot, the frozen
/// transfer context, the running fingerprint recomputed rule by rule,
/// and the outcome bitmask the policy tree will decide over.
pub struct SpendRequest {
    /// The delegation this request spends under.
    pub delegation: [u8; 32],
    /// The ledger snapshot rules evaluate against.
    pub state: SpendState,
    /// The frozen transfer context.
    pub context: TransferContext,
    /// The outcome bitmask, one bit per processed rule.
    pub result: u64,
    /// The index the next rule will be folded at.
    pub index: u8,
    /// The declared rule count, from the policy tree.
    pub count: u8,
    /// The serialized policy tree, stored verbatim.
    pub tree: Vec<u8>,
    /// The running fingerprint.
    pub hash: [u8; 32],
}

impl SpendRequest {
    /// Creates the request: snapshots the ledger and context, reserves
    /// the ledger slot for the context's instrument, decodes the policy
    /// tree to fix the expected rule count, and binds the request to the
    /// exact tree bytes by folding them into the seed fingerprint.
    pub fn init(
        &mut self,
        delegation: &[u8; 32],
        state: &SpendState,
        context: &TransferContext,
        tree_bytes: &Vec<u8>,
    ) -> (r: Result<(), EngineError>)
        requires
            forall|k: int| 0 <= k < state@.len() ==> (#[trigger] state@[k]).index < u64::MAX,
        ensures
            (match r {
                Ok(_) => {
                    &&& find_slot(state@, context.mint) is Some
                    &&& final(self).delegation@ == delegation@
                    &&& final(self).state@ == spec_reserve(state@, context.mint)
                    &&& tree::spec_parse(tree_bytes@, 0) matches Ok((t, p)) && p
                        == tree_bytes@.len() && tree::covered(t) && final(self).count
                        == tree::max_leaf(t) + 1
                    &&& final(self).index == 0
                    &&& final(self).result == 0
                    &&& final(self).tree@ == tree_bytes@
                    &&& final(self).hash@ == tree_step(zero_hash(), tree_bytes@)
                    &&& final(self).context == *context
                },
                Err(EngineError::Treasury(e)) => {
                    &&& e == TreasuryError::SpendRequestNoSpace
                    &&& find_slot(state@, context.mint) is None
                    &&& final(self).delegation@ == delegation@
                    &&& final(self).state@ == state@
                },
                Err(EngineError::Tree(e)) => {
                    &&& tree::spec_decode_err(tree_bytes@, e)
                    &&& find_slot(state@, context.mint) is Some
                    &&& final(self).delegation@ == delegation@
                    &&& final(self).state@ == spec_reserve(state@, context.mint)
                    &&& final(self).index == 0
                },
            }),
    {
        self.delegation = *delegation;
        self.state = state.clone();
        let i = match self.state.find(&context.mint) {
            Ok(i) => i,
            Err(e) => {
                return Err(EngineError::Treasury(e));
            },
        };
        proof {
            lemma_after_find_preserves(state@, context.mint);
        }
        let mut s = self.state.list[i];
        s.mint = context.mint;
        s.index = s.index + 1;
        self.state.list[i] = s;
        self.index = 0;
        let c = match tree::deserialize(tree_bytes) {
            Ok((_t, c)) => c,
            Err(e) => {
                return Err(EngineError::Tree(e));
            },
        };
        self.count = c;
        self.result = 0;
        let mut tv: Vec<u8> = Vec::new();
        push_bytes(&mut tv, tree_bytes.as_slice());
        self.tree = tv;
        self.hash = hash_init();
        self.hash_tree(tree_bytes);
        self.context = *context;
        Ok(())
    }

    /// Folds the serialized policy tree into the running fingerprint,
    /// exactly as the rule accumulator binds it at setup time.
    pub fn hash_tree(&mut self, tree_bytes: &Vec<u8>)
        ensures
            final(self).hash@ == tree_step(old(self).hash@, tree_bytes@),
            final(self).delegation == old(self).delegation,
            final(self).state == old(self).state,
            final(self).context == old(self).context,
            final(self).result == old(self).result,
            final(self).index == old(self).index,
            final(self).count == old(self).count,
            final(self).tree == old(self).tree,
    {
        self.hash = tree_hash(self.hash.as_slice(), tree_bytes.as_slice());
    }

    /// Processes the next rule: folds its canonical bytes into the
    /// running fingerprint at the current index, evaluates it, and
    /// records its outcome bit — a failed rule clears its bit but does
    /// not abort the request, since an OR in the tree may still
    /// authorize it.  A sweep rule marks the context as a sweep.  Fails,
    /// changing nothing, once the declared rule count is reached.
    pub fn process(&mut self, rule: &RuleDescriptor) -> (r: Result<(), TreasuryError>)
        ensures
            (match r {
                Ok(_) => {
                    &&& old(self).index < old(self).count
                    &&& final(self).hash@ == chain_step(
                        old(self).index,
                        rule.spec_canonical_bytes(),
                        old(self).hash@,
                    )
                    &&& final(self).state@ == rule.spec_state_after(
                        old(self).state@,
                        old(self).context,
                    )
                    &&& final(self).result == (if rule.spec_passes(
                        old(self).state@,
                        old(self).context,
                    ) {
                        set_outcome_bit(old(self).result, old(self).index)
                    } else {
                        old(self).result
                    })
                    &&& final(self).index == old(self).index + 1
                    &&& final(self).context == (if *rule matches RuleDescriptor::Sweep(_) {
                        (TransferContext { is_sweep: true, ..old(self).context })
                    } else {
                        old(self).context
                    })
                    &&& final(self).delegation == old(self).delegation
                    &&& final(self).count == old(self).count
                    &&& final(self).tree@ == old(self).tree@
                },
                Err(e) => {
                    &&& e == TreasuryError::RuleOutOfRange
                    &&& old(self).index >= old(self).count
                    &&& *final(self) == *old(self)
                },
            }),
    {
        if self.index >= self.count {
            return Err(TreasuryError::RuleOutOfRange);
        }
        self.hash = rule.hash(self.index, self.hash.as_slice());
        let passed = rule.process(&mut self.state, &self.context).is_ok();
        if passed && self.index < 64 {
            self.result = self.result | (1u64 << ((self.index) as u64));
        }
        self.index = self.index + 1;
        match rule {
            RuleDescriptor::Sweep(_) => {
                self.context.is_sweep = true;
            },
            _ => {},
        }
        Ok(())
    }

    /// Decodes the stored policy tree and evaluates it over the outcome
    /// bitmask; fails when the tree rejects the recorded outcomes.
    pub fn eval(&self) -> (r: Result<(), EngineError>)
        ensures
            (match r {
                Ok(_) => tree::spec_parse(self.tree@, 0) matches Ok((t, p)) && p == self.tree@.len()
                    && tree::covered(t) && tree::spec_eval(t, self.result),
                Err(EngineError::Tree(e)) => tree::spec_decode_err(self.tree@, e),
                Err(EngineError::Treasury(e)) => e == TreasuryError::RuleEvalFalse && (
                tree::spec_parse(self.tree@, 0) matches Ok((t, p)) && p == self.tree@.len()
                    && tree::covered(t) && !tree::spec_eval(t, self.result)),
            }),
    {
        let root = match tree::deserialize(&self.tree) {
            Ok((t, _c)) => t,
            Err(e) => {
                return Err(EngineError::Tree(e));
            },
        };
        let index: u8 = 0;
        let rootopt = Some(root);
        if !tree::evaluate(&index, &rootopt, &self.result) {
            return Err(EngineError::Treasury(TreasuryError::RuleEvalFalse));
        }
        Ok(())
    }

    /// Completes the request: every declared rule must have been
    /// processed, the recomputed fingerprint must equal the delegation's
    /// committed one byte for byte, and the policy tree must accept the
    /// outcome bitmask; only then is the ledger commit applied.
    pub fn complete(&self, delegation: &mut Delegation) -> (r: Result<(), EngineError>)
        ensures
            same_config(*final(delegation), *old(delegation)),
            (match r {
                Ok(_) => {
                    &&& self.index == self.count
                    &&& self.hash@ == old(delegation).rule_set_hash@
                    &&& tree::spec_parse(self.tree@, 0) matches Ok((t, p)) && p == self.tree@.len()
                        && tree::covered(t) && tree::spec_eval(t, self.result)
                    &&& find_slot(old(delegation).state@, self.context.mint) is Some
                    &&& final(delegation).state@ == spec_commit(
                        old(delegation).state@,
                        self.context,
                    )
                },
                Err(e) => final(delegation).state@ == old(delegation).state@ && (match e {
                    EngineError::Treasury(te) => (match te {
                        TreasuryError::RuleOutOfRange => self.index != self.count,
                        TreasuryError::BadHash => self.index == self.count && self.hash@ != old(
                            delegation,
                        ).rule_set_hash@,
                        TreasuryError::RuleEvalFalse => {
                            &&& self.index == self.count
                            &&& self.hash@ == old(delegation).rule_set_hash@
                            &&& tree::spec_parse(self.tree@, 0) matches Ok((t, p)) && p
                                == self.tree@.len() && tree::covered(t) && !tree::spec_eval(
                                t,
                                self.result,
                            )
                        },
                        TreasuryError::SpendRequestNoSpace => {
                            &&& self.index == self.count
                            &&& self.hash@ == old(delegation).rule_set_hash@
                            &&& find_slot(old(delegation).state@, self.context.mint) is None
                        },
                        _ => false,
                    }),
                    EngineError::Tree(te) => self.index == self.count && self.hash@ == old(
                        delegation,
                    ).rule_set_hash@ && tree::spec_decode_err(self.tree@, te),
                }),
            }),
    {
        if self.index != self.count {
            return Err(EngineError::Treasury(TreasuryError::RuleOutOfRange));
        }
        let hm = hash_is_equal(self.hash.as_slice(), delegation.rule_set_hash.as_slice());
        if !hm {
            return Err(EngineError::Treasury(TreasuryError::BadHash));
        }
        match self.eval() {
            Ok(_) => {},
            Err(e) => {
                return Err(e);
            },
        }
        match delegation.state.update(&self.context) {
            Ok(_) => Ok(()),
            Err(e) => Err(EngineError::Treasury(e)),
        }
    }
}

/// A committed sweep leaves every slot's rate-limit history (last spend
/// and last time) exactly as it was.
pub proof fn lemma_sweep_preserves_rate_state(list: Seq<SpendStateSlot>, ctx: TransferContext)
    requires
        ctx.is_sweep,
    ensures
        spec_commit(list, ctx).len() == list.len(),
        forall|k: int|
            0 <= k < list.len() ==> {
                &&& (#[trigger] spec_commit(list, ctx)[k]).last_spend == list[k].last_spend
                &&& spec_commit(list, ctx)[k].last_slot == list[k].last_slot
            },
{
    match find_slot(list, ctx.mint) {
        None => {},
        Some(i) => {
            match first_match_from(list, ctx.mint, 0) {
                Some(_) => {},
                None => {
                    match first_blank_from(list, 0) {
                        Some(b) => {
                            lemma_first_blank_range(list, 0);
                            assert forall|k: int| 0 <= k < list.len() implies {
                                &&& (#[trigger] spec_commit(list, ctx)[k]).last_spend == list[
                                    k].last_spend
                                &&& spec_commit(list, ctx)[k].last_slot == list[k].last_slot
                            } by {
                                if k == b {
                                    assert(spec_commit(list, ctx)[k] == (SpendStateSlot {
                                        mint: ctx.mint,
                                        ..list[b]
                                    }));
                                } else {
                                    assert(spec_commit(list, ctx)[k] == list[k]);
                                }
                            }
                        },
                        None => {},
                    }
                },
            }
        },
    }
}

} // verus!
