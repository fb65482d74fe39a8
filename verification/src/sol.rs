//! Rent-subsidy arithmetic: splitting a temporary account's balance into
//! the subsidy sent onward and the change returned.

use vstd::prelude::*;

use crate::errors::TreasuryError;

verus! {

/// Splits `balance` into the subsidy `amount` and the remaining change.
/// Fails when the balance cannot cover the subsidy.
pub fn subsidy_split(balance: u64, amount: u64) -> (r: Result<(u64, u64), TreasuryError>)
    ensures
        (match r {
            Ok((sent, change)) => {
                &&& amount <= balance
                &&& sent == amount
                &&& change == balance - amount
            },
            Err(e) => e == TreasuryError::BalanceInsufficient && amount > balance,
        }),
{
    if amount > balance {
        return Err(TreasuryError::BalanceInsufficient);
    }
    Ok((amount, balance - amount))
}

} // verus!
