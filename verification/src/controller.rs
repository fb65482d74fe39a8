//! The controller: the owning unit delegations are created under.

use vstd::prelude::*;

verus! {

/// One controller, owned by a single identity.
pub struct Controller {
    /// Address-derivation bump of the host account.
    pub bump: u8,
    /// The identity that owns this controller.
    pub owner: [u8; 32],
    /// A rule-set reference of the host environment.
    pub rules: [u8; 32],
    /// Number of live delegations under this controller.
    pub delegation_count: u32,
}

/// What a vault-to-vault transfer of `amount` does to a vault holding
/// `vault_balance`: an amount of zero means the whole balance, and the
/// vault is closed afterwards exactly when it is left empty.
pub fn transfer_plan(amount: u64, vault_balance: u64) -> (r: (u64, bool))
    ensures
        r.0 == (if amount == 0 {
            vault_balance
        } else {
            amount
        }),
        r.1 == (amount == 0 || vault_balance == amount),
{
    let transfer_amount = if amount == 0 {
        vault_balance
    } else {
        amount
    };
    let close_vault = amount == 0 || vault_balance == amount;
    (transfer_amount, close_vault)
}

impl Controller {
    /// Initializes the controller for its owner with no delegations.
    pub fn init(&mut self, bump: &u8, owner: &[u8; 32])
        ensures
            final(self).bump == *bump,
            final(self).owner@ == owner@,
            final(self).delegation_count == 0,
            final(self).rules@ == old(self).rules@,
    {
        self.bump = *bump;
        self.owner = *owner;
        self.delegation_count = 0;
    }
}

} // verus!
