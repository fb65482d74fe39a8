//! The sweep rule: authorizes draining a balance to a fixed destination
//! once the destination holds a minimum amount; a sweep-marked transfer
//! never updates rate-limit history.
//!
//! Only the destination and the minimum are hashed; the observed
//! destination balance is supplied at call time.

use vstd::prelude::*;

use crate::errors::TreasuryError;
use crate::rule::{push_u64_le, u64_le_bytes};
use crate::spend::{SpendState, TransferContext};

verus! {

/// Passes when the transfer targets `destination` and the destination's
/// observed balance reaches `min_bal`.
#[derive(Clone, Copy, Debug)]
pub struct Sweep {
    /// The only destination the sweep may drain to.
    pub destination: [u8; 32],
    /// The funding instrument swept; never hashed.
    pub mint: [u8; 32],
    /// The destination balance observed at call time; never hashed.
    pub balance: u64,
    /// The minimum observed balance the sweep requires.
    pub min_bal: u64,
}

impl Sweep {
    /// Builds the sweep rule around an observed destination balance.
    pub fn new(destination: &[u8; 32], mint: &[u8; 32], balance: u64, min_bal: u64) -> (r: Self)
        ensures
            r == (Sweep { destination: *destination, mint: *mint, balance, min_bal }),
    {
        Sweep { destination: *destination, balance, mint: *mint, min_bal }
    }

    /// The hashed projection: destination and minimum balance.
    pub fn for_serialization(&self) -> (r: SweepOnly)
        ensures
            r == (SweepOnly { destination: self.destination, min_bal: self.min_bal }),
    {
        SweepOnly { destination: self.destination, min_bal: self.min_bal }
    }

    /// Canonical bytes for hashing: destination, then minimum balance.
    pub open spec fn spec_canonical_bytes(self) -> Seq<u8> {
        self.destination@ + u64_le_bytes(self.min_bal)
    }

    /// Serializes the rule's canonical bytes.
    pub fn canonical_bytes(&self) -> (r: Vec<u8>)
        ensures
            r@ == self.spec_canonical_bytes(),
    {
        let mut v: Vec<u8> = Vec::new();
        crate::hashing::push_bytes(&mut v, self.destination.as_slice());
        push_u64_le(&mut v, self.min_bal);
        v
    }

    /// What the rule decides: a failure when the transfer's destination
    /// is not the sweep destination, or the destination balance is short.
    pub open spec fn spec_result(self, ctx: TransferContext) -> Result<(), TreasuryError> {
        if ctx.destination_vault@ != self.destination@ {
            Err(TreasuryError::RuleSweepWrongDestination)
        } else if self.balance < self.min_bal {
            Err(TreasuryError::RuleSweepNotEnoughFunds)
        } else {
            Ok(())
        }
    }

    /// Evaluates the rule; the ledger is untouched.
    pub fn process(&self, _state: &mut SpendState, context: &TransferContext) -> (r: Result<
        (),
        TreasuryError,
    >)
        ensures
            final(_state)@ == old(_state)@,
            r == self.spec_result(*context),
    {
        let same = crate::hashing::hash_is_equal(
            context.destination_vault.as_slice(),
            self.destination.as_slice(),
        );
        if !same {
            return Err(TreasuryError::RuleSweepWrongDestination);
        }
        if self.balance < self.min_bal {
            return Err(TreasuryError::RuleSweepNotEnoughFunds);
        }
        Ok(())
    }
}

/// The hashed projection of a sweep rule.
#[derive(Clone, Copy, Debug)]
pub struct SweepOnly {
    /// The only destination the sweep may drain to.
    pub destination: [u8; 32],
    /// The minimum observed balance the sweep requires.
    pub min_bal: u64,
}

} // verus!
