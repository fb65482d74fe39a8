//! The rate-limiter rule: bounds the rolling spend against one funding
//! instrument within a sliding window of logical time.

use vstd::prelude::*;

use crate::errors::TreasuryError;
use crate::rule::{push_u64_le, u64_le_bytes};
use crate::spend::{after_find, find_slot, SpendState, SpendStateSlot, TransferContext};

verus! {

/// Caps the cumulative spend against `mint` at `max_spend` per window of
/// `delta_slot` logical time units.
#[derive(Clone, Copy, Debug)]
pub struct RateLimiter {
    /// The funding instrument the limit applies to.
    pub mint: [u8; 32],
    /// The spend ceiling; a candidate spend must stay strictly below it.
    pub max_spend: u64,
    /// The window length in logical time units.
    pub delta_slot: u64,
}

impl RateLimiter {
    /// Builds a rate limiter; the ceiling must be positive and the window
    /// at least 100 time units.
    pub fn new(mint: &[u8; 32], max_spend: u64, delta_slot: u64) -> (r: Result<
        Self,
        TreasuryError,
    >)
        ensures
            (match r {
                Ok(rl) => {
                    &&& max_spend > 0
                    &&& delta_slot >= 100
                    &&& rl == (RateLimiter { mint: *mint, max_spend, delta_slot })
                },
                Err(e) => {
                    if max_spend == 0 {
                        e == TreasuryError::RateLimiterMaxSpendCannotBeZero
                    } else {
                        delta_slot < 100 && e
                            == TreasuryError::RateLimiterDeltaSlotMustBeGreaterThan100
                    }
                },
            }),
    {
        if max_spend == 0 {
            return Err(TreasuryError::RateLimiterMaxSpendCannotBeZero);
        }
        if delta_slot < 100 {
            return Err(TreasuryError::RateLimiterDeltaSlotMustBeGreaterThan100);
        }
        Ok(RateLimiter { mint: *mint, max_spend, delta_slot })
    }

    /// Canonical bytes for hashing: instrument, ceiling, window.
    pub open spec fn spec_canonical_bytes(self) -> Seq<u8> {
        self.mint@ + u64_le_bytes(self.max_spend) + u64_le_bytes(self.delta_slot)
    }

    /// Serializes the rule's canonical bytes.
    pub fn canonical_bytes(&self) -> (r: Vec<u8>)
        ensures
            r@ == self.spec_canonical_bytes(),
    {
        let mut v: Vec<u8> = Vec::new();
        crate::hashing::push_bytes(&mut v, self.mint.as_slice());
        push_u64_le(&mut v, self.max_spend);
        push_u64_le(&mut v, self.delta_slot);
        v
    }

    /// What the rule decides on a ledger and transfer context: no free
    /// slot fails closed; a clock regression fails; a candidate spend at
    /// or above the ceiling fails.  The candidate spend is cumulative within
    /// the window and resets outside it.
    pub open spec fn spec_result(self, list: Seq<SpendStateSlot>, ctx: TransferContext) -> Result<
        (),
        TreasuryError,
    > {
        match find_slot(list, ctx.mint) {
            None => Err(TreasuryError::SpendRequestNoSpace),
            Some(i) => {
                let s = after_find(list, ctx.mint)[i];
                if ctx.slot < s.last_slot {
                    Err(TreasuryError::RuleRateLimiterSlotOutOfOrder)
                } else {
                    let spent: int = if ctx.slot < s.last_slot + self.delta_slot {
                        s.last_spend + ctx.amount
                    } else {
                        ctx.amount as int
                    };
                    if self.max_spend <= spent {
                        Err(TreasuryError::RuleRateLimiterCannotExceedSpendLimit)
                    } else {
                        Ok(())
                    }
                }
            },
        }
    }

    /// Evaluates the rule.  Looks up (or allocates) the ledger slot for
    /// the rule's instrument; the verdict itself does not alter the
    /// recorded spend history.
    pub fn process(&self, state: &mut SpendState, tx_ctx: &TransferContext) -> (r: Result<
        (),
        TreasuryError,
    >)
        ensures
            final(state)@ == after_find(old(state)@, tx_ctx.mint),
            r == self.spec_result(old(state)@, *tx_ctx),
    {
        let i = match state.find(&tx_ctx.mint) {
            Ok(i) => i,
            Err(e) => {
                return Err(e);
            },
        };
        proof {
            crate::spend::lemma_after_find_len(old(state)@, tx_ctx.mint);
        }
        let space = state.list[i];
        if tx_ctx.slot < space.last_slot {
            return Err(TreasuryError::RuleRateLimiterSlotOutOfOrder);
        }
        let in_window = match space.last_slot.checked_add(self.delta_slot) {
            Some(x) => tx_ctx.slot < x,
            None => true,
        };
        let spent_ok: bool;
        if in_window {
            match space.last_spend.checked_add(tx_ctx.amount) {
                Some(s) => {
                    spent_ok = self.max_spend > s;
                },
                None => {
                    spent_ok = false;
                },
            }
        } else {
            spent_ok = self.max_spend > tx_ctx.amount;
        }
        if !spent_ok {
            return Err(TreasuryError::RuleRateLimiterCannotExceedSpendLimit);
        }
        Ok(())
    }
}

} // verus!
