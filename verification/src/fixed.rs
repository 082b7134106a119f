//! Signed fixed-point numbers with 48 fractional bits.

use vstd::prelude::*;
use crate::rounding::{trunc_div, div_toward_zero};

verus! {

/// The raw value of 1.0: `2^48` units.
pub const ONE_RAW: i64 = 0x1_0000_0000_0000;

/// The largest magnitude a raw value may have: `2^61` units, that is 8192.0.
pub const RAW_LIMIT: i64 = 0x2000_0000_0000_0000;

/// Whether a count of units can be held by a [`Fixed`].
pub open spec fn in_range(units: int) -> bool {
    -RAW_LIMIT <= units <= RAW_LIMIT
}

/// The product of two counts of units, as a count of units: rounded toward
/// zero.
pub open spec fn product_units(u: int, v: int) -> int {
    trunc_div(u * v, ONE_RAW as int)
}

/// A real number held as a whole count of units of `2^-48`, between -8192
/// and 8192 inclusive.
///
/// The view of a `Fixed` is its count of units.
#[derive(Clone, Copy, Debug, PartialEq, Eq, Structural)]
pub struct Fixed {
    raw: i64,
}

impl View for Fixed {
    type V = int;

    closed spec fn view(&self) -> int {
        self.raw as int
    }
}

impl Fixed {
    /// Every `Fixed` that executable code holds is within range.
    #[verifier::type_invariant]
    pub open spec fn wf(self) -> bool {
        in_range(self@)
    }

    /// The number with the given count of units, if it is within range.
    pub fn from_raw(raw: i64) -> (r: Option<Fixed>)
        ensures
            r is Some <==> in_range(raw as int),
            r is Some ==> r.unwrap()@ == raw,
    {
        if -RAW_LIMIT <= raw && raw <= RAW_LIMIT {
            Some(Fixed { raw })
        } else {
            None
        }
    }

    /// The number with the given count of units, if it is within range.
    pub fn from_wide(units: i128) -> (r: Option<Fixed>)
        ensures
            r is Some <==> in_range(units as int),
            r is Some ==> r.unwrap()@ == units,
    {
        if -(RAW_LIMIT as i128) <= units && units <= RAW_LIMIT as i128 {
            Some(Fixed { raw: units as i64 })
        } else {
            None
        }
    }

    /// The count of units.
    pub fn raw(&self) -> (r: i64)
        ensures
            r == self@,
            in_range(r as int),
    {
        proof {
            use_type_invariant(self);
        }
        self.raw
    }

    /// The count of units, widened.
    pub fn wide(&self) -> (r: i128)
        ensures
            r == self@,
            in_range(r as int),
    {
        proof {
            use_type_invariant(self);
        }
        self.raw as i128
    }

    /// The number 0.
    pub fn zero() -> (r: Fixed)
        ensures
            r@ == 0,
    {
        Fixed { raw: 0 }
    }

    /// The number 1.
    pub fn one() -> (r: Fixed)
        ensures
            r@ == ONE_RAW,
    {
        Fixed { raw: ONE_RAW }
    }

    /// The number of opposite sign.
    pub fn neg(self) -> (r: Fixed)
        ensures
            r@ == -self@,
    {
        proof {
            use_type_invariant(self);
        }
        Fixed { raw: -self.raw }
    }

    /// The sum, if it is within range.
    pub fn checked_add(self, other: Fixed) -> (r: Option<Fixed>)
        ensures
            r is Some <==> in_range(self@ + other@),
            r is Some ==> r.unwrap()@ == self@ + other@,
    {
        proof {
            use_type_invariant(self);
            use_type_invariant(other);
        }
        Fixed::from_raw(self.raw + other.raw)
    }

    /// The difference, if it is within range.
    pub fn checked_sub(self, other: Fixed) -> (r: Option<Fixed>)
        ensures
            r is Some <==> in_range(self@ - other@),
            r is Some ==> r.unwrap()@ == self@ - other@,
    {
        proof {
            use_type_invariant(self);
            use_type_invariant(other);
        }
        Fixed::from_raw(self.raw - other.raw)
    }

    /// The product, rounded toward zero, if it is within range.
    pub fn checked_mul(self, other: Fixed) -> (r: Option<Fixed>)
        ensures
            r is Some <==> in_range(product_units(self@, other@)),
            r is Some ==> r.unwrap()@ == product_units(self@, other@),
    {
        proof {
            use_type_invariant(self);
            use_type_invariant(other);
        }
        let u: i128 = self.raw as i128;
        let v: i128 = other.raw as i128;
        assert(-0x0400_0000_0000_0000_0000_0000_0000_0000 <= u * v
            <= 0x0400_0000_0000_0000_0000_0000_0000_0000) by (nonlinear_arith)
            requires
                -0x2000_0000_0000_0000 <= u <= 0x2000_0000_0000_0000,
                -0x2000_0000_0000_0000 <= v <= 0x2000_0000_0000_0000,
        ;
        Fixed::from_wide(div_toward_zero(u * v, ONE_RAW as i128))
    }
}

/// Two numbers are equal exactly if their counts of units are.
pub proof fn lemma_equal_by_units(u: Fixed, v: Fixed)
    ensures
        u == v <==> u@ == v@,
{
}

} // verus!
