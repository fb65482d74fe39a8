//! The authorization-constraint rule: a transfer passes only when the
//! required signer authorized this specific call.
//!
//! Only the required signer enters the canonical bytes, so whether the
//! signature was observed never affects the rule-set fingerprint.

use vstd::prelude::*;

use crate::errors::TreasuryError;
use crate::spend::{SpendState, TransferContext};

verus! {

/// Requires a signature of `required_authorizer`; `authorizer` holds the
/// observed signer, if the host saw one.
#[derive(Clone, Copy, Debug)]
pub struct AuthorizationConstraint {
    /// The identity that must authorize the transfer.
    pub required_authorizer: [u8; 32],
    /// The observed authorizing identity, if any; never hashed.
    pub authorizer: Option<[u8; 32]>,
}

impl AuthorizationConstraint {
    /// Builds the constraint from the required signer and the observed one.
    pub fn new(required_authorizer: &[u8; 32], authorizer: Option<[u8; 32]>) -> (r: Self)
        ensures
            r == (AuthorizationConstraint { required_authorizer: *required_authorizer, authorizer }),
    {
        AuthorizationConstraint { required_authorizer: *required_authorizer, authorizer }
    }

    /// Canonical bytes for hashing: the required signer alone.
    pub open spec fn spec_canonical_bytes(self) -> Seq<u8> {
        self.required_authorizer@
    }

    /// Serializes the rule's canonical bytes.
    pub fn canonical_bytes(&self) -> (r: Vec<u8>)
        ensures
            r@ == self.spec_canonical_bytes(),
    {
        let mut v: Vec<u8> = Vec::new();
        crate::hashing::push_bytes(&mut v, self.required_authorizer.as_slice());
        v
    }

    /// What the rule decides: a failure unless an authorizing signature
    /// was observed.
    pub open spec fn spec_result(self) -> Result<(), TreasuryError> {
        if self.authorizer is None {
            Err(TreasuryError::RuleAuthorizerConstraintMustMatch)
        } else {
            Ok(())
        }
    }

    /// Evaluates the rule; the ledger and context are untouched.
    pub fn process(&self, _state: &mut SpendState, _context: &TransferContext) -> (r: Result<
        (),
        TreasuryError,
    >)
        ensures
            final(_state)@ == old(_state)@,
            r == self.spec_result(),
    {
        if self.authorizer.is_none() {
            return Err(TreasuryError::RuleAuthorizerConstraintMustMatch);
        }
        Ok(())
    }
}

/// The hashed projection of an authorization constraint: the required
/// signer alone.
#[derive(Clone, Copy, Debug)]
pub struct AuthorizationConstraintOnly {
    /// The identity that must authorize the transfer.
    pub required_authorizer: [u8; 32],
}

impl AuthorizationConstraintOnly {
    /// Expands to a full constraint, observed-signed or not.
    pub fn ac(&self, will_sign: bool) -> (r: AuthorizationConstraint)
        ensures
            r.required_authorizer == self.required_authorizer,
            r.authorizer == (if will_sign {
                Some(self.required_authorizer)
            } else {
                None::<[u8; 32]>
            }),
    {
        let authorizer: Option<[u8; 32]> = if will_sign {
            Some(self.required_authorizer)
        } else {
            None
        };
        AuthorizationConstraint { required_authorizer: self.required_authorizer, authorizer }
    }
}

} // verus!
