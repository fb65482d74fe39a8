//! The delegation: the authorization unit a committed rule set belongs
//! to, holding the rule-set fingerprint and the spend ledger that
//! completed transfers are committed into.

use vstd::prelude::*;

use crate::errors::TreasuryError;
use crate::spend::{slot_is_fresh, SpendState};

verus! {

/// One delegation: a committed rule set's fingerprint, declared rule
/// count, and spend ledger.
pub struct Delegation {
    /// Address-derivation bump of the host account.
    pub bump: u8,
    /// The controller this delegation belongs to.
    pub controller: [u8; 32],
    /// The declared rule count of the committed rule set.
    pub rule_set_count: u8,
    /// The committed rule-set fingerprint.
    pub rule_set_hash: [u8; 32],
    /// The rolling-window spend ledger.
    pub state: SpendState,
    /// Logical time the delegation was requested at; zero once approved.
    pub requested_slot: u64,
}

/// Whether two delegation values agree on everything but the ledger.
pub open spec fn same_config(a: Delegation, b: Delegation) -> bool {
    &&& a.bump == b.bump
    &&& a.controller@ == b.controller@
    &&& a.rule_set_count == b.rule_set_count
    &&& a.rule_set_hash@ == b.rule_set_hash@
    &&& a.requested_slot == b.requested_slot
}

impl Delegation {
    /// Initializes the delegation with a committed fingerprint and a
    /// fresh ledger of `max_spend_state` blank slots.  Fails when the
    /// fingerprint has the wrong length.
    pub fn init(
        &mut self,
        controller: &[u8; 32],
        bump: u8,
        rule_set_count: u8,
        rule_set_hash: &[u8],
        slot: u64,
        max_spend_state: u8,
    ) -> (r: Result<(), TreasuryError>)
        ensures
            (match r {
                Ok(_) => {
                    &&& rule_set_hash@.len() == 32
                    &&& final(self).bump == bump
                    &&& final(self).controller@ == controller@
                    &&& final(self).rule_set_count == rule_set_count
                    &&& final(self).rule_set_hash@ == rule_set_hash@
                    &&& final(self).state@.len() == max_spend_state
                    &&& forall|k: int|
                        0 <= k < max_spend_state ==> slot_is_fresh(
                            #[trigger] final(self).state@[k],
                        )
                    &&& final(self).requested_slot == slot
                },
                Err(e) => {
                    &&& e == TreasuryError::BadHash
                    &&& rule_set_hash@.len() != 32
                    &&& *final(self) == *old(self)
                },
            }),
    {
        if rule_set_hash.len() != 32 {
            return Err(TreasuryError::BadHash);
        }
        let mut h = [0u8; 32];
        let mut i: usize = 0;
        while i < 32
            invariant
                i <= 32,
                rule_set_hash@.len() == 32,
                forall|k: int| 0 <= k < i ==> h@[k] == rule_set_hash@[k],
            decreases 32 - i,
        {
            h[i] = rule_set_hash[i];
            i = i + 1;
        }
        proof {
            assert(h@ =~= rule_set_hash@);
        }
        self.rule_set_hash = h;
        self.bump = bump;
        self.controller = *controller;
        self.rule_set_count = rule_set_count;
        self.state = SpendState::new(max_spend_state);
        self.requested_slot = slot;
        Ok(())
    }
}

} // verus!
