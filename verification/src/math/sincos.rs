//! The cosine and the sine of an angle given in degrees, in units of
//! `2^-60`.
//!
//! The angle is a count of units of `2^-48` degrees and is taken modulo a
//! full turn. Whole multiples of 45 degrees have exact values: 0, 1 and one
//! rounded square root of a half, with the signs of the quadrant.
//!
//! For any other angle a vector is turned by half of the angle, and the
//! cosine and the sine of the whole angle are taken from the vector by the
//! double-angle formulas. These give a point on the unit circle whatever the
//! length of the vector is, so the squares of the cosine and the sine add up
//! to 1 but for what rounding each of them down leaves out.

use vstd::prelude::*;
use vstd::arithmetic::div_mod::{lemma_fundamental_div_mod, lemma_fundamental_div_mod_converse, lemma_mod_bound};
use vstd::arithmetic::power2::{pow2, lemma_pow2_pos, lemma_pow2_unfold, lemma_pow2_strictly_increases, lemma2_to64, lemma2_to64_rest};
use crate::rounding::{trunc_div, magnitude, magnitude_of, div_toward_zero};
use crate::math::scaling::{UNIT, fraction_units, fraction};
use crate::math::tables::{arctan_pow2, arctan_entry, lemma_arctan_halves_slowly, STEPS};

verus! {

/// A full turn, in units of `2^-48` degrees.
pub const FULL_TURN: i64 = 360 * 0x1_0000_0000_0000;

/// A right angle, in units of `2^-48` degrees.
pub const RIGHT_ANGLE: i64 = 90 * 0x1_0000_0000_0000;

/// Half a right angle, in units of `2^-48` degrees.
pub const HALF_RIGHT_ANGLE: i64 = 45 * 0x1_0000_0000_0000;

/// The number of radians in a degree, in units of `2^-69`, rounded to the
/// nearest unit.
pub const RADIANS_PER_DEGREE: i128 = 10302605451487463598;

/// `2^57`: what brings a product of units of `2^-48` and of `2^-69` to units
/// of `2^-60`.
pub const RADIAN_SHIFT: i128 = 0x0200_0000_0000_0000;

/// The square root of a half, rounded to the nearest unit of `2^-60`.
pub const SQRT_HALF: i128 = 815238614083298888;

/// The length that the turning steps stretch to 1, rounded to the nearest
/// unit of `2^-60`: the reciprocal of the product of the square roots of
/// `1 + 4^-i` over all steps `i`.
pub const START_LENGTH: i128 = 990112082269311855;

/// Three times the start length: no component of the turning vector ever
/// exceeds it.
pub const STRETCH_LIMIT: i128 = 3 * START_LENGTH;

/// A vector being turned counterclockwise, with the angle it has still to
/// be turned by.
pub struct Rotating {
    pub x: int,
    pub y: int,
    pub rest: int,
}

/// Turns the vector by `arctan(2^-i)`: counterclockwise if an angle is left
/// to turn, clockwise if the vector has been turned too far.
pub open spec fn rotating_step(s: Rotating, i: nat) -> Rotating {
    let p = pow2(i) as int;
    if s.rest >= 0 {
        Rotating {
            x: s.x - trunc_div(s.y, p),
            y: s.y + trunc_div(s.x, p),
            rest: s.rest - arctan_pow2(i as int),
        }
    } else {
        Rotating {
            x: s.x + trunc_div(s.y, p),
            y: s.y - trunc_div(s.x, p),
            rest: s.rest + arctan_pow2(i as int),
        }
    }
}

/// The steps `i`, `i + 1`, .. up to the last, applied in turn.
pub open spec fn rotating_from(s: Rotating, i: nat) -> Rotating
    decreases STEPS + 1 - i,
{
    if i > STEPS {
        s
    } else {
        rotating_from(rotating_step(s, i), i + 1)
    }
}

/// An angle of at most 45 degrees, brought from units of `2^-48` degrees to
/// units of `2^-60` radians.
pub open spec fn radians_of(degrees: int) -> int {
    (degrees * RADIANS_PER_DEGREE) / (RADIAN_SHIFT as int)
}

/// The larger of two numbers.
pub open spec fn larger(u: int, v: int) -> int {
    if u >= v {
        u
    } else {
        v
    }
}

/// The smaller of two numbers.
pub open spec fn smaller(u: int, v: int) -> int {
    if u >= v {
        v
    } else {
        u
    }
}

/// The cosine and the sine of twice the angle that the vector `(hi, lo)`
/// makes with the x axis, where `0 <= lo <= hi`: `(hi^2 - lo^2) / n` and
/// `2 hi lo / n` with `n = hi^2 + lo^2`, each rounded down. The zero vector
/// counts as lying on the x axis.
pub open spec fn double_angle(hi: int, lo: int) -> (int, int) {
    let n = hi * hi + lo * lo;
    if n == 0 {
        (UNIT as int, 0)
    } else {
        (fraction_units(hi * hi - lo * lo, n), fraction_units(2 * hi * lo, n))
    }
}

/// The cosine and the sine of an angle from 0 to 45 degrees: each between 0
/// and 1.
///
/// A vector on the x axis is turned by half of the angle and mirrored into
/// the first octant, where it is after the turn but for the last units;
/// the double-angle formulas give the rest.
pub open spec fn octant_cos_sin(degrees: int) -> (int, int) {
    let end = rotating_from(
        Rotating { x: START_LENGTH as int, y: 0, rest: radians_of(degrees) / 2 },
        1,
    );
    double_angle(
        larger(magnitude(end.x), magnitude(end.y)),
        smaller(magnitude(end.x), magnitude(end.y)),
    )
}

/// The cosine and the sine of an angle from 0 to just below 90 degrees.
pub open spec fn quadrant_cos_sin(degrees: int) -> (int, int) {
    if degrees == 0 {
        (UNIT as int, 0)
    } else if degrees == HALF_RIGHT_ANGLE {
        (SQRT_HALF as int, SQRT_HALF as int)
    } else if degrees < HALF_RIGHT_ANGLE {
        octant_cos_sin(degrees)
    } else {
        let mirrored = octant_cos_sin(RIGHT_ANGLE - degrees);
        (mirrored.1, mirrored.0)
    }
}

/// The cosine and the sine of an angle that has been turned on by `quarter`
/// right angles from one with the cosine and sine `first`.
pub open spec fn turned_by_quarters(first: (int, int), quarter: int) -> (int, int) {
    if quarter == 0 {
        first
    } else if quarter == 1 {
        (-first.1, first.0)
    } else if quarter == 2 {
        (-first.0, -first.1)
    } else {
        (first.1, -first.0)
    }
}

/// The cosine and the sine of an angle in units of `2^-48` degrees, each in
/// units of `2^-60` and between -1 and 1.
pub open spec fn cos_sin_units(degrees: int) -> (int, int) {
    let within_turn = degrees % (FULL_TURN as int);
    turned_by_quarters(
        quadrant_cos_sin(within_turn % (RIGHT_ANGLE as int)),
        within_turn / (RIGHT_ANGLE as int),
    )
}

/// Whether the squares of a cosine and a sine add up to 1, but for less than
/// four units of `2^-60`.
pub open spec fn on_unit_circle(cs: (int, int)) -> bool {
    UNIT * UNIT - 4 * UNIT - 2 < cs.0 * cs.0 + cs.1 * cs.1 <= UNIT * UNIT
}

/// A fraction of a part to a whole is between 0 and 1.
proof fn lemma_fraction_range(num: int, den: int)
    requires
        0 <= num <= den,
        0 < den,
    ensures
        0 <= fraction_units(num, den) <= UNIT,
{
    assert(0 <= (num * UNIT) / den <= UNIT) by (nonlinear_arith)
        requires
            0 <= num <= den,
            0 < den,
    ;
}

/// A fraction that was rounded down, times its denominator, is at most the
/// numerator at the working precision, and one more is above it.
proof fn lemma_rounded_down(num: int, den: int)
    requires
        0 <= num,
        0 < den,
    ensures
        0 <= fraction_units(num, den) * den <= num * UNIT < (fraction_units(num, den) + 1) * den,
{
    let v = num * UNIT;
    assert(0 <= (v / den) * den <= v < (v / den + 1) * den) by (nonlinear_arith)
        requires
            0 <= v,
            0 < den,
    ;
}

/// Squaring keeps the order of numbers that are not negative.
proof fn lemma_squares_ordered(u: int, v: int)
    requires
        0 <= u <= v,
    ensures
        u * u <= v * v,
{
    assert(u * u <= v * v) by (nonlinear_arith)
        requires
            0 <= u <= v,
    ;
}

/// Squaring keeps the strict order of numbers that are not negative.
proof fn lemma_squares_strictly_ordered(u: int, v: int)
    requires
        0 <= u < v,
    ensures
        u * u < v * v,
{
    assert(u * u < v * v) by (nonlinear_arith)
        requires
            0 <= u < v,
    ;
}

/// A common positive factor can be taken out of an inequality.
proof fn lemma_cancel_factor(u: int, v: int, f: int)
    requires
        f > 0,
        u * f <= v * f,
    ensures
        u <= v,
{
    assert(u <= v) by (nonlinear_arith)
        requires
            f > 0,
            u * f <= v * f,
    ;
}

/// A common positive factor can be taken out of a strict inequality.
proof fn lemma_cancel_factor_strict(u: int, v: int, f: int)
    requires
        f > 0,
        u * f < v * f,
    ensures
        u < v,
{
    assert(u < v) by (nonlinear_arith)
        requires
            f > 0,
            u * f < v * f,
    ;
}

/// The double-angle formulas give a cosine and a sine between 0 and 1 whose
/// squares add up to 1, but for what rounding each of them down leaves out:
/// less than four units.
pub proof fn lemma_double_angle_on_circle(hi: int, lo: int)
    requires
        0 <= lo <= hi,
    ensures
        0 <= double_angle(hi, lo).0 <= UNIT,
        0 <= double_angle(hi, lo).1 <= UNIT,
        on_unit_circle(double_angle(hi, lo)),
{
    let n = hi * hi + lo * lo;
    let u = UNIT as int;
    assert(hi * hi >= lo * lo && lo * lo >= 0 && hi * lo >= 0 && 2 * hi * lo <= hi * hi + lo * lo)
        by (nonlinear_arith)
        requires
            0 <= lo <= hi,
    ;
    if n != 0 {
        let a = hi * hi - lo * lo;
        let b = 2 * hi * lo;
        lemma_fraction_range(a, n);
        lemma_fraction_range(b, n);
        let c = fraction_units(a, n);
        let s = fraction_units(b, n);
        assert(a * a + b * b == n * n) by (nonlinear_arith)
            requires
                a == hi * hi - lo * lo,
                b == 2 * hi * lo,
                n == hi * hi + lo * lo,
        ;
        lemma_rounded_down(a, n);
        lemma_rounded_down(b, n);
        lemma_squares_ordered(c * n, a * u);
        lemma_squares_ordered(s * n, b * u);
        lemma_squares_strictly_ordered(a * u, (c + 1) * n);
        lemma_squares_strictly_ordered(b * u, (s + 1) * n);
        assert((c * n) * (c * n) + (s * n) * (s * n) == (c * c + s * s) * (n * n))
            by (nonlinear_arith);
        assert(((c + 1) * n) * ((c + 1) * n) + ((s + 1) * n) * ((s + 1) * n) == ((c + 1) * (c + 1)
            + (s + 1) * (s + 1)) * (n * n)) by (nonlinear_arith);
        assert((a * u) * (a * u) + (b * u) * (b * u) == (u * u) * (n * n)) by (nonlinear_arith)
            requires
                a * a + b * b == n * n,
        ;
        assert(n * n > 0) by (nonlinear_arith)
            requires
                n != 0,
        ;
        lemma_cancel_factor(c * c + s * s, u * u, n * n);
        lemma_cancel_factor_strict(u * u, (c + 1) * (c + 1) + (s + 1) * (s + 1), n * n);
        assert((c + 1) * (c + 1) + (s + 1) * (s + 1) == c * c + s * s + 2 * c + 2 * s + 2)
            by (nonlinear_arith);
    }
}

/// The cosine and the sine of an angle from 0 to just below 90 degrees are
/// between 0 and 1, and their squares add up to 1 but for less than four
/// units.
pub proof fn lemma_quadrant_on_circle(degrees: int)
    ensures
        0 <= quadrant_cos_sin(degrees).0 <= UNIT,
        0 <= quadrant_cos_sin(degrees).1 <= UNIT,
        on_unit_circle(quadrant_cos_sin(degrees)),
{
    if degrees == 0 {
    } else if degrees == HALF_RIGHT_ANGLE {
    } else {
        let d = if degrees < HALF_RIGHT_ANGLE {
            degrees
        } else {
            RIGHT_ANGLE - degrees
        };
        let end = rotating_from(
            Rotating { x: START_LENGTH as int, y: 0, rest: radians_of(d) / 2 },
            1,
        );
        lemma_double_angle_on_circle(
            larger(magnitude(end.x), magnitude(end.y)),
            smaller(magnitude(end.x), magnitude(end.y)),
        );
    }
}

/// The cosine and the sine are between -1 and 1, and their squares add up
/// to 1 but for less than four units of `2^-60`.
pub proof fn lemma_cos_sin_on_circle(degrees: int)
    ensures
        -UNIT <= cos_sin_units(degrees).0 <= UNIT,
        -UNIT <= cos_sin_units(degrees).1 <= UNIT,
        on_unit_circle(cos_sin_units(degrees)),
{
    let within_turn = degrees % (FULL_TURN as int);
    let first = quadrant_cos_sin(within_turn % (RIGHT_ANGLE as int));
    lemma_quadrant_on_circle(within_turn % (RIGHT_ANGLE as int));
    assert((-first.0) * (-first.0) == first.0 * first.0) by (nonlinear_arith);
    assert((-first.1) * (-first.1) == first.1 * first.1) by (nonlinear_arith);
}

/// How much of the angle may be left before step `i`: at most twice the
/// arctangent of the step, and after the last step at most the last
/// arctangent, which is one unit.
pub open spec fn within_turns(s: Rotating, i: int) -> bool {
    if i <= STEPS {
        magnitude(s.rest) <= 2 * arctan_pow2(i)
    } else {
        magnitude(s.rest) <= arctan_pow2(STEPS as int)
    }
}

/// The steps from `i` on use up an angle that is within the turns of step
/// `i`, but for one unit of `2^-60`.
proof fn lemma_steps_use_up_angle(s: Rotating, i: nat)
    requires
        1 <= i <= STEPS + 1,
        within_turns(s, i as int),
    ensures
        magnitude(rotating_from(s, i).rest) <= 1,
    decreases STEPS + 1 - i,
{
    if i <= STEPS {
        if i < STEPS {
            lemma_arctan_halves_slowly(i as int);
        }
        lemma_steps_use_up_angle(rotating_step(s, i), i + 1);
    }
}

/// The turns by which a vector is turned add up to half of the angle, but
/// for one unit of `2^-60`: the vector whose doubled angle gives the cosine
/// and the sine has been turned by half of the angle.
pub proof fn lemma_turns_add_up_to_half_angle(degrees: int)
    requires
        0 <= degrees <= HALF_RIGHT_ANGLE,
    ensures
        magnitude(
            rotating_from(
                Rotating { x: START_LENGTH as int, y: 0, rest: radians_of(degrees) / 2 },
                1,
            ).rest,
        ) <= 1,
{
    let product = degrees * RADIANS_PER_DEGREE;
    assert(0 <= product <= HALF_RIGHT_ANGLE * RADIANS_PER_DEGREE) by (nonlinear_arith)
        requires
            0 <= degrees <= HALF_RIGHT_ANGLE,
            product == degrees * RADIANS_PER_DEGREE,
    ;
    assert(0 <= radians_of(degrees) <= UNIT);
    lemma_steps_use_up_angle(
        Rotating { x: START_LENGTH as int, y: 0, rest: radians_of(degrees) / 2 },
        1,
    );
}

/// Angles that differ by whole turns have the same cosine and sine.
pub proof fn lemma_cos_sin_periodic(degrees: int, turns: int)
    ensures
        cos_sin_units(degrees + turns * FULL_TURN) == cos_sin_units(degrees),
{
    assert((degrees + turns * FULL_TURN) % (FULL_TURN as int) == degrees % (FULL_TURN as int))
        by (nonlinear_arith);
}

/// The bound on a component of the turning vector before the step that
/// divides by `p`: the start length before the first step, and afterwards a
/// bound that grows toward [`STRETCH_LIMIT`].
pub open spec fn stretch_bounded(v: int, p: int) -> bool {
    if p == 2 {
        magnitude(v) <= START_LENGTH
    } else {
        magnitude(v) * p <= STRETCH_LIMIT * (p - 2)
    }
}

/// A component that is bounded before a step is bounded after it, when it
/// has taken up the share `other / p` of the other component.
proof fn lemma_stretch_step(v: int, other: int, share: int, next: int, p: int)
    requires
        p >= 2,
        stretch_bounded(v, p),
        stretch_bounded(other, p),
        share == trunc_div(other, p),
        next == v + share || next == v - share,
    ensures
        stretch_bounded(next, 2 * p),
        magnitude(next) <= STRETCH_LIMIT,
{
    let c = STRETCH_LIMIT as int;
    let mv = magnitude(v);
    let mo = magnitude(other);
    let ms = magnitude(share);
    let mn = magnitude(next);
    assert(ms == mo / p);
    assert(ms * p <= mo) by (nonlinear_arith)
        requires
            ms == mo / p,
            mo >= 0,
            p >= 2,
    ;
    assert(mn <= mv + ms);
    if p == 2 {
        assert(mn * (2 * p) <= c * (2 * p - 2)) by (nonlinear_arith)
            requires
                p == 2,
                4 * mn <= 2 * c,
        ;
    } else {
        assert(mo <= c) by (nonlinear_arith)
            requires
                mo * p <= c * (p - 2),
                p > 2,
                mo >= 0,
                c >= 0,
        ;
        assert(mn * (2 * p) <= c * (2 * p - 2)) by (nonlinear_arith)
            requires
                mn <= mv + ms,
                ms * p <= mo,
                mo <= c,
                mv * p <= c * (p - 2),
                p > 2,
        ;
    }
    assert(mn <= c) by (nonlinear_arith)
        requires
            mn * (2 * p) <= c * (2 * p - 2),
            p >= 2,
            mn >= 0,
            c >= 0,
    ;
}

/// The cosine and the sine of an angle from 0 to 45 degrees.
fn octant_turn(degrees: i64) -> (r: (i128, i128))
    requires
        0 <= degrees <= HALF_RIGHT_ANGLE,
    ensures
        (r.0 as int, r.1 as int) == octant_cos_sin(degrees as int),
        0 <= r.0 <= UNIT,
        0 <= r.1 <= UNIT,
{
    let start: i128 = ((degrees as i128 * RADIANS_PER_DEGREE) / RADIAN_SHIFT) / 2;
    let mut x: i128 = START_LENGTH;
    let mut y: i128 = 0;
    let mut rest: i128 = start;
    let mut p: i128 = 2;
    let mut i: usize = 1;
    proof {
        lemma2_to64();
    }
    while i <= STEPS
        invariant
            1 <= i <= STEPS + 1,
            p == pow2(i as nat),
            stretch_bounded(x as int, p as int),
            stretch_bounded(y as int, p as int),
            magnitude(x as int) <= STRETCH_LIMIT,
            magnitude(y as int) <= STRETCH_LIMIT,
            magnitude(rest as int) <= UNIT * i,
            rotating_from(Rotating { x: x as int, y: y as int, rest: rest as int }, i as nat)
                == rotating_from(
                Rotating { x: START_LENGTH as int, y: 0, rest: start as int },
                1,
            ),
        decreases STEPS + 1 - i,
    {
        proof {
            lemma_pow2_pos(i as nat);
            lemma_pow2_strictly_increases(i as nat, 61);
            lemma_pow2_strictly_increases(0, i as nat);
            lemma2_to64_rest();
            lemma_pow2_unfold((i + 1) as nat);
        }
        let dx: i128 = div_toward_zero(y, p);
        let dy: i128 = div_toward_zero(x, p);
        let a: i128 = arctan_entry(i);
        let ghost x0 = x as int;
        let ghost y0 = y as int;
        proof {
            assert(magnitude(dx as int) <= magnitude(y0) && magnitude(dy as int) <= magnitude(x0))
                by (nonlinear_arith)
                requires
                    magnitude(dx as int) == magnitude(y0) / (p as int),
                    magnitude(dy as int) == magnitude(x0) / (p as int),
                    p >= 2,
            ;
        }
        if rest >= 0 {
            x = x - dx;
            y = y + dy;
            rest = rest - a;
        } else {
            x = x + dx;
            y = y - dy;
            rest = rest + a;
        }
        proof {
            lemma_stretch_step(x0, y0, dx as int, x as int, p as int);
            lemma_stretch_step(y0, x0, dy as int, y as int, p as int);
        }
        p = p * 2;
        i = i + 1;
    }
    let mx: u128 = magnitude_of(x);
    let my: u128 = magnitude_of(y);
    if mx >= my {
        doubled_angle(mx, my)
    } else {
        doubled_angle(my, mx)
    }
}

/// The cosine and the sine of twice the angle that the vector `(hi, lo)`
/// makes with the x axis.
fn doubled_angle(hi: u128, lo: u128) -> (r: (i128, i128))
    requires
        lo <= hi <= STRETCH_LIMIT,
    ensures
        (r.0 as int, r.1 as int) == double_angle(hi as int, lo as int),
        0 <= r.0 <= UNIT,
        0 <= r.1 <= UNIT,
{
    proof {
        lemma_double_angle_on_circle(hi as int, lo as int);
    }
    assert(0 <= lo * lo <= hi * hi <= 0x1000_0000_0000_0000_0000_0000_0000_0000 && 0 <= hi * lo
        <= 0x1000_0000_0000_0000_0000_0000_0000_0000 && 2 * hi * lo <= hi * hi + lo * lo && 2 * hi
        * lo == 2 * (hi * lo)) by (nonlinear_arith)
        requires
            0 <= lo <= hi <= 0x4000_0000_0000_0000,
    ;
    let hh: u128 = hi * hi;
    let ll: u128 = lo * lo;
    let n: u128 = hh + ll;
    if n == 0 {
        (UNIT as i128, 0)
    } else {
        (fraction(hh - ll, n) as i128, fraction(2 * (hi * lo), n) as i128)
    }
}

/// The cosine and the sine of an angle from 0 to just below 90 degrees.
fn quadrant_turn(degrees: i64) -> (r: (i128, i128))
    requires
        0 <= degrees < RIGHT_ANGLE,
    ensures
        (r.0 as int, r.1 as int) == quadrant_cos_sin(degrees as int),
        0 <= r.0 <= UNIT,
        0 <= r.1 <= UNIT,
{
    if degrees == 0 {
        (UNIT as i128, 0)
    } else if degrees == HALF_RIGHT_ANGLE {
        (SQRT_HALF, SQRT_HALF)
    } else if degrees < HALF_RIGHT_ANGLE {
        octant_turn(degrees)
    } else {
        let mirrored = octant_turn(RIGHT_ANGLE - degrees);
        (mirrored.1, mirrored.0)
    }
}

/// The angle between 0 and a full turn that differs from `degrees` by whole
/// turns.
fn within_turn(degrees: i64) -> (r: i64)
    ensures
        r == (degrees as int) % (FULL_TURN as int),
        0 <= r < FULL_TURN,
{
    if degrees >= 0 {
        degrees % FULL_TURN
    } else {
        let back: i64 = if degrees == i64::MIN {
            i64::MAX
        } else {
            -degrees
        };
        let over: i64 = back % FULL_TURN;
        proof {
            let n = -(degrees as int);
            let f = FULL_TURN as int;
            lemma_fundamental_div_mod(n, f);
            lemma_mod_bound(n, f);
            let q = n / f;
            let m = n % f;
            if m == 0 {
                assert(degrees as int == (-q) * f + 0) by (nonlinear_arith)
                    requires
                        n == f * q + m,
                        m == 0,
                        n == -(degrees as int),
                ;
                lemma_fundamental_div_mod_converse(degrees as int, f, -q, 0);
            } else {
                assert(degrees as int == (-q - 1) * f + (f - m)) by (nonlinear_arith)
                    requires
                        n == f * q + m,
                        n == -(degrees as int),
                ;
                lemma_fundamental_div_mod_converse(degrees as int, f, -q - 1, f - m);
            }
        }
        if degrees == i64::MIN {
            // The magnitude is one more than the largest positive number.
            let shifted: i64 = over + 1;
            if shifted == FULL_TURN {
                0
            } else {
                FULL_TURN - shifted
            }
        } else if over == 0 {
            0
        } else {
            FULL_TURN - over
        }
    }
}

/// The cosine and the sine of an angle in units of `2^-48` degrees, each in
/// units of `2^-60`.
pub fn cos_sin(degrees: i64) -> (r: (i128, i128))
    ensures
        (r.0 as int, r.1 as int) == cos_sin_units(degrees as int),
        -UNIT <= r.0 <= UNIT,
        -UNIT <= r.1 <= UNIT,
{
    let turn: i64 = within_turn(degrees);
    let quarter: i64 = turn / RIGHT_ANGLE;
    let first = quadrant_turn(turn % RIGHT_ANGLE);
    if quarter == 0 {
        first
    } else if quarter == 1 {
        (-first.1, first.0)
    } else if quarter == 2 {
        (-first.0, -first.1)
    } else {
        (first.1, -first.0)
    }
}

} // verus!
