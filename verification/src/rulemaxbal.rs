//! The balance-constraint rule: a transfer passes only when the observed
//! balance of the source funding instrument stays within a ceiling.
//!
//! Only the instrument and the ceiling are hashed; the observed balance
//! is supplied at call time and never enters the fingerprint.

use vstd::prelude::*;

use crate::errors::TreasuryError;
use crate::rule::{push_u64_le, u64_le_bytes};
use crate::spend::{SpendState, TransferContext};

verus! {

/// Caps the observed balance of `mint` at `max_bal`.
#[derive(Clone, Copy, Debug)]
pub struct BalanceConstraint {
    /// The funding instrument whose balance is constrained.
    pub mint: [u8; 32],
    /// The balance observed at call time; never hashed.
    pub balance: u64,
    /// The ceiling the observed balance may not exceed.
    pub max_bal: u64,
}

impl BalanceConstraint {
    /// Builds the constraint around an observed balance.
    pub fn new(mint: &[u8; 32], balance: u64, max_bal: u64) -> (r: Self)
        ensures
            r == (BalanceConstraint { mint: *mint, balance, max_bal }),
    {
        BalanceConstraint { mint: *mint, balance, max_bal }
    }

    /// The hashed projection: instrument and ceiling, without the
    /// observed balance.
    pub fn for_serialization(&self) -> (r: BalanceConstraintOnly)
        ensures
            r == (BalanceConstraintOnly { mint: self.mint, max_bal: self.max_bal }),
    {
        BalanceConstraintOnly { mint: self.mint, max_bal: self.max_bal }
    }

    /// Canonical bytes for hashing: instrument, then ceiling.
    pub open spec fn spec_canonical_bytes(self) -> Seq<u8> {
        self.mint@ + u64_le_bytes(self.max_bal)
    }

    /// Serializes the rule's canonical bytes.
    pub fn canonical_bytes(&self) -> (r: Vec<u8>)
        ensures
            r@ == self.spec_canonical_bytes(),
    {
        let mut v: Vec<u8> = Vec::new();
        crate::hashing::push_bytes(&mut v, self.mint.as_slice());
        push_u64_le(&mut v, self.max_bal);
        v
    }

    /// What the rule decides: a failure when the observed balance
    /// exceeds the ceiling.
    pub open spec fn spec_result(self) -> Result<(), TreasuryError> {
        if self.max_bal < self.balance {
            Err(TreasuryError::RuleMaxBalanceExceeded)
        } else {
            Ok(())
        }
    }

    /// Evaluates the rule; the ledger and context are untouched.
    pub fn process(&self, _state: &mut SpendState, _context: &TransferContext) -> (r: Result<
        (),
        TreasuryError,
    >)
        ensures
            final(_state)@ == old(_state)@,
            r == self.spec_result(),
    {
        if self.max_bal < self.balance {
            return Err(TreasuryError::RuleMaxBalanceExceeded);
        }
        Ok(())
    }
}

/// The hashed projection of a balance constraint.
#[derive(Clone, Copy, Debug)]
pub struct BalanceConstraintOnly {
    /// The funding instrument whose balance is constrained.
    pub mint: [u8; 32],
    /// The ceiling the observed balance may not exceed.
    pub max_bal: u64,
}

} // verus!
