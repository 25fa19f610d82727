//! Balance amounts whose range is set by a policy, with checked arithmetic.

use vstd::prelude::*;

verus! {

/// The largest amount of money that can exist, in zatoshis.
pub const MAX_MONEY: i64 = 2_100_000_000_000_000;

/// Which values an amount may take.
#[derive(Clone, Copy, Debug, PartialEq, Eq, Structural, Hash)]
pub enum Policy {
    /// `0..=MAX_MONEY`: absolute balances.
    NonNegative,
    /// `-MAX_MONEY..=MAX_MONEY`: net changes over a chain segment.
    NegativeAllowed,
}

/// Is `v` allowed by `p`?
pub open spec fn in_range(v: int, p: Policy) -> bool {
    &&& v <= MAX_MONEY
    &&& match p {
        Policy::NonNegative => 0 <= v,
        Policy::NegativeAllowed => -MAX_MONEY <= v,
    }
}

/// An amount that violates a policy.
#[derive(Clone, Copy, Debug, PartialEq, Eq, Structural, Hash)]
pub enum AmountError {
    /// `value` is outside the range of the policy it was checked against.
    Constraint { value: i64, policy: Policy },
}

/// An amount of money in zatoshis, within the range of its policy.
#[derive(Clone, Copy, Debug, PartialEq, Eq, Hash)]
pub struct Amount {
    value: i64,
    policy: Policy,
}

impl Amount {
    #[verifier::type_invariant]
    spec fn inv(&self) -> bool {
        in_range(self.value as int, self.policy)
    }

    /// The amount in zatoshis.
    pub closed spec fn spec_value(&self) -> int {
        self.value as int
    }

    /// The policy the amount obeys.
    pub closed spec fn spec_policy(&self) -> Policy {
        self.policy
    }

    /// `value` under `policy`, if the policy allows it.
    pub fn new(value: i64, policy: Policy) -> (r: Result<Amount, AmountError>)
        ensures
            r is Ok <==> in_range(value as int, policy),
            r matches Ok(a) ==> a.spec_value() == value && a.spec_policy() == policy,
            r matches Err(e) ==> e == (AmountError::Constraint { value, policy }),
    {
        let ok = match policy {
            Policy::NonNegative => 0 <= value && value <= MAX_MONEY,
            Policy::NegativeAllowed => -MAX_MONEY <= value && value <= MAX_MONEY,
        };
        if ok {
            Ok(Amount { value, policy })
        } else {
            Err(AmountError::Constraint { value, policy })
        }
    }

    /// The amount in zatoshis.
    pub fn value(&self) -> (r: i64)
        ensures
            r == self.spec_value(),
            in_range(r as int, self.spec_policy()),
    {
        proof {
            use_type_invariant(self);
        }
        self.value
    }

    /// The policy the amount obeys.
    pub fn policy(&self) -> (r: Policy)
        ensures
            r == self.spec_policy(),
    {
        self.policy
    }

    /// The same value, checked against `policy`.
    pub fn constrain(self, policy: Policy) -> (r: Result<Amount, AmountError>)
        ensures
            in_range(self.spec_value(), self.spec_policy()),
            r is Ok <==> in_range(self.spec_value(), policy),
            r matches Ok(a) ==> a.spec_value() == self.spec_value() && a.spec_policy() == policy,
            r matches Err(e) ==> e == (AmountError::Constraint { value: self.spec_value() as i64, policy }),
    {
        proof {
            use_type_invariant(&self);
        }
        Amount::new(self.value, policy)
    }

    /// The sum of two amounts under their common policy.
    pub fn checked_add(self, other: Amount) -> (r: Result<Amount, AmountError>)
        requires
            self.spec_policy() == other.spec_policy(),
        ensures
            in_range(self.spec_value(), self.spec_policy()),
            in_range(other.spec_value(), other.spec_policy()),
            r is Ok <==> in_range(self.spec_value() + other.spec_value(), self.spec_policy()),
            r matches Ok(a) ==> a.spec_value() == self.spec_value() + other.spec_value()
                && a.spec_policy() == self.spec_policy(),
            r matches Err(e) ==> e == (AmountError::Constraint {
                value: (self.spec_value() + other.spec_value()) as i64,
                policy: self.spec_policy(),
            }),
    {
        proof {
            use_type_invariant(&self);
            use_type_invariant(&other);
        }
        Amount::new(self.value + other.value, self.policy)
    }
}

} // verus!
