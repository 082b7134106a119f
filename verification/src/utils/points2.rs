//! Points and vectors in the plane.

use vstd::prelude::*;
use crate::fixed::{Fixed, in_range, product_units, ONE_RAW};
use crate::rounding::magnitude;
use crate::utils::comparison::nearly_equal;
use crate::ERR_CUTOFF;

verus! {

/// The two components of a point or vector, as counts of units.
pub struct Units2 {
    pub x: int,
    pub y: int,
}

impl Units2 {
    /// The vector with both components 0.
    pub open spec fn zero() -> Units2 {
        Units2 { x: 0, y: 0 }
    }

    /// The componentwise sum.
    pub open spec fn plus(self, other: Units2) -> Units2 {
        Units2 { x: self.x + other.x, y: self.y + other.y }
    }

    /// The componentwise difference.
    pub open spec fn minus(self, other: Units2) -> Units2 {
        Units2 { x: self.x - other.x, y: self.y - other.y }
    }

    /// Each component multiplied by the integer `k`.
    pub open spec fn times(self, k: int) -> Units2 {
        Units2 { x: k * self.x, y: k * self.y }
    }

    /// Each component multiplied by the number of `factor` units, rounded
    /// toward zero.
    pub open spec fn scaled_by(self, factor: int) -> Units2 {
        Units2 { x: product_units(factor, self.x), y: product_units(factor, self.y) }
    }

    /// Whether neither component differs from that of `other` by more than
    /// [`ERR_CUTOFF`].
    pub open spec fn near(self, other: Units2) -> bool {
        magnitude(self.x - other.x) <= ERR_CUTOFF && magnitude(self.y - other.y) <= ERR_CUTOFF
    }

    /// Whether both components can be held by a [`Fixed`].
    pub open spec fn in_range(self) -> bool {
        in_range(self.x) && in_range(self.y)
    }
}

/// A position in the plane, or a vector such as a field value.
///
/// The view of a `Point2` is the pair of its components' counts of units.
#[derive(Clone, Copy, Debug, PartialEq, Eq, Structural)]
pub struct Point2 {
    pub x: Fixed,
    pub y: Fixed,
}

impl View for Point2 {
    type V = Units2;

    open spec fn view(&self) -> Units2 {
        Units2 { x: self.x@, y: self.y@ }
    }
}

impl Point2 {
    /// The point with the given components.
    pub fn new(x: Fixed, y: Fixed) -> (r: Point2)
        ensures
            r.x == x,
            r.y == y,
    {
        Point2 { x, y }
    }

    /// The origin, and the additive identity of vectors.
    pub fn zero() -> (r: Point2)
        ensures
            r@ == Units2::zero(),
    {
        Point2 { x: Fixed::zero(), y: Fixed::zero() }
    }

    /// The componentwise sum, if both components of it are within range.
    pub fn checked_add(self, other: Point2) -> (r: Option<Point2>)
        ensures
            r is Some <==> self@.plus(other@).in_range(),
            r is Some ==> r.unwrap()@ == self@.plus(other@),
    {
        match (self.x.checked_add(other.x), self.y.checked_add(other.y)) {
            (Some(x), Some(y)) => Some(Point2 { x, y }),
            _ => None,
        }
    }

    /// The componentwise difference, if both components of it are within
    /// range.
    pub fn checked_sub(self, other: Point2) -> (r: Option<Point2>)
        ensures
            r is Some <==> self@.minus(other@).in_range(),
            r is Some ==> r.unwrap()@ == self@.minus(other@),
    {
        match (self.x.checked_sub(other.x), self.y.checked_sub(other.y)) {
            (Some(x), Some(y)) => Some(Point2 { x, y }),
            _ => None,
        }
    }

    /// The vector with each component multiplied by `factor`, rounded toward
    /// zero, if both components of it are within range.
    pub fn checked_scale(self, factor: Fixed) -> (r: Option<Point2>)
        ensures
            r is Some <==> self@.scaled_by(factor@).in_range(),
            r is Some ==> r.unwrap()@ == self@.scaled_by(factor@),
    {
        match (factor.checked_mul(self.x), factor.checked_mul(self.y)) {
            (Some(x), Some(y)) => Some(Point2 { x, y }),
            _ => None,
        }
    }

    /// Whether neither component differs from that of `other` by more than
    /// [`ERR_CUTOFF`].
    pub fn nearly_equal(self, other: Point2) -> (r: bool)
        ensures
            r == self@.near(other@),
    {
        nearly_equal(self.x, other.x) && nearly_equal(self.y, other.y)
    }

    /// Adds `other` to this vector in place, if the sum is within range, and
    /// says whether it did. A vector that cannot take the sum is left as it
    /// was.
    pub fn accumulate(&mut self, other: Point2) -> (done: bool)
        ensures
            done <==> old(self)@.plus(other@).in_range(),
            done ==> final(self)@ == old(self)@.plus(other@),
            !done ==> *final(self) == *old(self),
    {
        match self.checked_add(other) {
            Some(sum) => {
                *self = sum;
                true
            },
            None => false,
        }
    }
}

/// Vector addition is commutative and associative, and the zero vector is
/// its identity.
pub proof fn lemma_addition_laws(u: Units2, v: Units2, w: Units2)
    ensures
        u.plus(v) == v.plus(u),
        u.plus(v).plus(w) == u.plus(v.plus(w)),
        u.plus(Units2::zero()) == u,
{
}

/// Scaling by an integer is linear: it distributes over vector addition and
/// over the addition of factors.
pub proof fn lemma_scaling_laws(u: Units2, v: Units2, k: int, l: int)
    ensures
        u.plus(v).times(k) == u.times(k).plus(v.times(k)),
        u.times(k + l) == u.times(k).plus(u.times(l)),
        u.times(1) == u,
{
    assert(k * (u.x + v.x) == k * u.x + k * v.x) by (nonlinear_arith);
    assert(k * (u.y + v.y) == k * u.y + k * v.y) by (nonlinear_arith);
    assert((k + l) * u.x == k * u.x + l * u.x) by (nonlinear_arith);
    assert((k + l) * u.y == k * u.y + l * u.y) by (nonlinear_arith);
}

/// Scaling by a whole number is exact: a factor of `k` whole ones multiplies
/// each component by `k`.
pub proof fn lemma_whole_factor_scales_exactly(u: Units2, k: int)
    ensures
        u.scaled_by(k * ONE_RAW) == u.times(k),
{
    lemma_whole_product(k, u.x);
    lemma_whole_product(k, u.y);
}

/// The product of `k` whole ones and `v` units is `k * v` units.
proof fn lemma_whole_product(k: int, v: int)
    ensures
        product_units(k * ONE_RAW, v) == k * v,
{
    let n = k * v;
    assert((k * ONE_RAW) * v == n * ONE_RAW) by (nonlinear_arith)
        requires
            n == k * v,
    ;
    if n >= 0 {
        assert((n * ONE_RAW) / (ONE_RAW as int) == n) by (nonlinear_arith)
            requires
                ONE_RAW > 0,
        ;
    } else {
        assert(((-n) * ONE_RAW) / (ONE_RAW as int) == -n) by (nonlinear_arith)
            requires
                ONE_RAW > 0,
        ;
        assert(-(n * ONE_RAW) == (-n) * ONE_RAW) by (nonlinear_arith);
        assert(n * ONE_RAW < 0) by (nonlinear_arith)
            requires
                n < 0,
                ONE_RAW > 0,
        ;
    }
}

} // verus!
