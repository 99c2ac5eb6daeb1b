//! Exact money at a fixed scale of two decimal digits.

use vstd::prelude::*;

verus! {

/// An exact decimal amount with two digits after the point, held as a count of
/// minor units (hundredths). Positive is a credit, negative a debit.
#[derive(Clone, Copy, Debug, PartialEq, Eq, Structural)]
pub struct Money {
    pub minor_units: i128,
}

impl View for Money {
    type V = int;

    open spec fn view(&self) -> int {
        self.minor_units as int
    }
}

/// Whether a count of minor units fits the machine representation.
pub open spec fn representable(v: int) -> bool {
    i128::MIN <= v <= i128::MAX
}

impl Money {
    /// The amount 0.00.
    pub fn zero() -> (m: Money)
        ensures
            m@ == 0,
    {
        Money { minor_units: 0 }
    }

    /// The amount of `n` hundredths.
    pub fn from_minor_units(n: i128) -> (m: Money)
        ensures
            m@ == n,
    {
        Money { minor_units: n }
    }

    /// The amount in hundredths.
    pub fn minor_units(&self) -> (n: i128)
        ensures
            n == self@,
    {
        self.minor_units
    }

    /// Whether the amount is strictly above zero.
    pub fn is_positive(&self) -> (b: bool)
        ensures
            b == (self@ > 0),
    {
        self.minor_units > 0
    }

    /// Whether the amount is strictly below `other`.
    pub fn is_below(&self, other: &Money) -> (b: bool)
        ensures
            b == (self@ < other@),
    {
        self.minor_units < other.minor_units
    }

    /// The exact sum, or `None` when it is not representable.
    pub fn checked_add(&self, other: &Money) -> (r: Option<Money>)
        ensures
            representable(self@ + other@) ==> r.is_some() && r.unwrap()@ == self@ + other@,
            !representable(self@ + other@) ==> r.is_none(),
    {
        match self.minor_units.checked_add(other.minor_units) {
            Some(n) => Some(Money { minor_units: n }),
            None => None,
        }
    }

    /// The exact difference, or `None` when it is not representable.
    pub fn checked_sub(&self, other: &Money) -> (r: Option<Money>)
        ensures
            representable(self@ - other@) ==> r.is_some() && r.unwrap()@ == self@ - other@,
            !representable(self@ - other@) ==> r.is_none(),
    {
        match self.minor_units.checked_sub(other.minor_units) {
            Some(n) => Some(Money { minor_units: n }),
            None => None,
        }
    }

    /// The exact sum of two amounts whose sum is representable.
    pub fn plus(&self, other: &Money) -> (m: Money)
        requires
            representable(self@ + other@),
        ensures
            m@ == self@ + other@,
    {
        Money { minor_units: self.minor_units + other.minor_units }
    }

    /// The amount with its sign flipped, for an amount whose negation is
    /// representable.
    pub fn negated(&self) -> (m: Money)
        requires
            representable(-self@),
        ensures
            m@ == -self@,
    {
        Money { minor_units: 0 - self.minor_units }
    }

    /// The amount with its sign flipped, or `None` when that is not representable.
    pub fn checked_neg(&self) -> (r: Option<Money>)
        ensures
            representable(-self@) ==> r.is_some() && r.unwrap()@ == -self@,
            !representable(-self@) ==> r.is_none(),
    {
        let zero: i128 = 0;
        match zero.checked_sub(self.minor_units) {
            Some(n) => Some(Money { minor_units: n }),
            None => None,
        }
    }
}

} // verus!
