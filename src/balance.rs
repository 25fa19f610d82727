//! Address balances across the finalized and non-finalized regions.

use vstd::prelude::*;

use crate::amount::{in_range, Amount, AmountError, Policy};
use crate::finalized_read::{HeightRange, QueryError};

verus! {

/// Adds a non-finalized chain's net balance change to a finalized balance.
///
/// Succeeds exactly when the sum is a valid non-negative amount, and then
/// returns that sum; otherwise returns the range error for the sum.
pub fn apply_balance_change(finalized_balance: Amount, chain_balance_change: Amount) -> (r: Result<Amount, AmountError>)
    requires
        finalized_balance.spec_policy() == Policy::NonNegative,
        chain_balance_change.spec_policy() == Policy::NegativeAllowed,
    ensures
        in_range(finalized_balance.spec_value(), Policy::NonNegative),
        in_range(chain_balance_change.spec_value(), Policy::NegativeAllowed),
        r is Ok <==> in_range(finalized_balance.spec_value() + chain_balance_change.spec_value(), Policy::NonNegative),
        r matches Ok(a) ==> a.spec_value() == finalized_balance.spec_value() + chain_balance_change.spec_value()
            && a.spec_policy() == Policy::NonNegative,
        r matches Err(e) ==> e == (AmountError::Constraint {
            value: (finalized_balance.spec_value() + chain_balance_change.spec_value()) as i64,
            policy: if finalized_balance.spec_value() + chain_balance_change.spec_value() < 0 {
                Policy::NonNegative
            } else {
                Policy::NegativeAllowed
            },
        }),
{
    let finalized = match finalized_balance.constrain(Policy::NegativeAllowed) {
        Ok(a) => a,
        Err(e) => return Err(e),
    };
    let balance = match finalized.checked_add(chain_balance_change) {
        Ok(a) => a,
        Err(e) => return Err(e),
    };
    balance.constrain(Policy::NonNegative)
}

/// The balance of a set of addresses across both regions.
///
/// `finalized_tip_range` is the range certified for the finalized read (`None`
/// when the store was empty, and then the finalized balance counts as zero).
/// A range whose ends differ means the read raced the writer.
pub fn address_balance(
    finalized_tip_range: Option<HeightRange>,
    finalized_balance: Amount,
    chain_balance_change: Amount,
) -> (r: Result<Amount, QueryError>)
    requires
        finalized_balance.spec_policy() == Policy::NonNegative,
        chain_balance_change.spec_policy() == Policy::NegativeAllowed,
    ensures
        ({
            let base = if finalized_tip_range is Some { finalized_balance.spec_value() } else { 0 };
            match finalized_tip_range {
                Some(h) if h.start != h.end => r == Err::<Amount, QueryError>(QueryError::TipChanged { range: h }),
                _ => {
                    &&& r is Ok <==> in_range(base + chain_balance_change.spec_value(), Policy::NonNegative)
                    &&& r matches Ok(a) ==> a.spec_value() == base + chain_balance_change.spec_value()
                        && a.spec_policy() == Policy::NonNegative
                    &&& r matches Err(e) ==> e == (QueryError::Amount {
                        error: AmountError::Constraint {
                            value: (base + chain_balance_change.spec_value()) as i64,
                            policy: if base + chain_balance_change.spec_value() < 0 {
                                Policy::NonNegative
                            } else {
                                Policy::NegativeAllowed
                            },
                        },
                    })
                }
            }
        }),
{
    let base = match finalized_tip_range {
        Some(h) => {
            if h.start != h.end {
                return Err(QueryError::TipChanged { range: h });
            }
            finalized_balance
        },
        None => match Amount::new(0, Policy::NonNegative) {
            Ok(zero) => zero,
            Err(error) => return Err(QueryError::Amount { error }),
        },
    };
    match apply_balance_change(base, chain_balance_change) {
        Ok(a) => Ok(a),
        Err(error) => Err(QueryError::Amount { error }),
    }
}

} // verus!
