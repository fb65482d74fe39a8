//! The program-constraint rule: a transfer passes only when the caller
//! program recorded in the transfer context matches the required one.

use vstd::prelude::*;

use crate::errors::TreasuryError;
use crate::hashing::hash_is_equal;
use crate::spend::{SpendState, TransferContext};

verus! {

/// Requires the transfer context's caller program to equal `program_id`.
#[derive(Clone, Copy, Debug)]
pub struct ProgramConstraint {
    /// The required caller program.
    pub program_id: [u8; 32],
}

impl ProgramConstraint {
    /// Builds the constraint.
    pub fn new(program_id: &[u8; 32]) -> (r: Self)
        ensures
            r == (ProgramConstraint { program_id: *program_id }),
    {
        ProgramConstraint { program_id: *program_id }
    }

    /// Canonical bytes for hashing: the required program alone.
    pub open spec fn spec_canonical_bytes(self) -> Seq<u8> {
        self.program_id@
    }

    /// Serializes the rule's canonical bytes.
    pub fn canonical_bytes(&self) -> (r: Vec<u8>)
        ensures
            r@ == self.spec_canonical_bytes(),
    {
        let mut v: Vec<u8> = Vec::new();
        crate::hashing::push_bytes(&mut v, self.program_id.as_slice());
        v
    }

    /// What the rule decides: a failure unless the context's caller
    /// program is the required one.
    pub open spec fn spec_result(self, ctx: TransferContext) -> Result<(), TreasuryError> {
        if ctx.program_id@ != self.program_id@ {
            Err(TreasuryError::RuleProgramConstraintMustMatch)
        } else {
            Ok(())
        }
    }

    /// Evaluates the rule; the ledger and context are untouched.
    pub fn process(&self, _state: &mut SpendState, context: &TransferContext) -> (r: Result<
        (),
        TreasuryError,
    >)
        ensures
            final(_state)@ == old(_state)@,
            r == self.spec_result(*context),
    {
        let same = hash_is_equal(context.program_id.as_slice(), self.program_id.as_slice());
        if !same {
            return Err(TreasuryError::RuleProgramConstraintMustMatch);
        }
        Ok(())
    }
}

} // verus!
