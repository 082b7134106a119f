//! The angle of a vector with integer components, in units of `2^-60`
//! radians.
//!
//! The angle depends on the direction of the vector only, so the components
//! may be given at any common scale. Right angles and diagonals are exact:
//! a vector on an axis or on a diagonal has an angle that is a whole multiple
//! of [`QUARTER_PI`].

use vstd::prelude::*;
use vstd::arithmetic::power2::{pow2, lemma_pow2_pos, lemma_pow2_unfold, lemma_pow2_strictly_increases, lemma2_to64, lemma2_to64_rest};
use crate::rounding::{trunc_div, magnitude, clamped, lemma_trunc_div_bound, div_toward_zero, magnitude_of};
use crate::math::scaling::{scaled, scale, lemma_scaled_range, UNIT, UNIT_TWICE, SCALABLE_LIMIT};
use crate::math::tables::{arctan_pow2, arctan_entry, STEPS, QUARTER_PI, HALF_PI, PI};

verus! {

/// A vector being turned onto the positive x axis, with the angle it has
/// been turned by so far.
pub struct Vectoring {
    pub x: int,
    pub y: int,
    pub angle: int,
}

/// Turns the vector toward the x axis by `arctan(2^-i)`: clockwise if it
/// lies above the axis, counterclockwise if below. The turn stretches the
/// vector, which leaves its direction alone.
pub open spec fn vectoring_step(s: Vectoring, i: nat) -> Vectoring {
    let p = pow2(i) as int;
    if s.y >= 0 {
        Vectoring {
            x: s.x + trunc_div(s.y, p),
            y: s.y - trunc_div(s.x, p),
            angle: s.angle + arctan_pow2(i as int),
        }
    } else {
        Vectoring {
            x: s.x - trunc_div(s.y, p),
            y: s.y + trunc_div(s.x, p),
            angle: s.angle - arctan_pow2(i as int),
        }
    }
}

/// The steps `i`, `i + 1`, .. up to the last, applied in turn.
pub open spec fn vectoring_from(s: Vectoring, i: nat) -> Vectoring
    decreases STEPS + 1 - i,
{
    if i > STEPS {
        s
    } else {
        vectoring_from(vectoring_step(s, i), i + 1)
    }
}

/// The angle of the vector `(hi, lo)` in the first octant, where
/// `0 <= lo <= hi` and `0 < hi`: between 0 and a quarter of pi.
pub open spec fn octant_angle(lo: int, hi: int) -> int {
    if lo == 0 {
        0
    } else if lo == hi {
        QUARTER_PI as int
    } else {
        let s = scaled(lo, hi);
        clamped(
            vectoring_from(Vectoring { x: s.hi, y: s.lo, angle: 0 }, 1).angle,
            0,
            QUARTER_PI as int,
        )
    }
}

/// The angle of the vector `(d, t)` with both components positive: between
/// 0 and half of pi.
pub open spec fn quadrant_angle(t: int, d: int) -> int {
    if t <= d {
        octant_angle(t, d)
    } else {
        HALF_PI - octant_angle(d, t)
    }
}

/// The angle from the positive x axis to the vector `(d, t)`, in units of
/// `2^-60` radians: above `-PI` and at most `PI`.
///
/// The angle of the zero vector is 0. With `t == 0` the angle is 0 for
/// `d > 0` and `PI` for `d < 0`; with `d == 0` it is `HALF_PI` for `t > 0`
/// and `-HALF_PI` for `t < 0`.
pub open spec fn atan2_units(t: int, d: int) -> int {
    if t == 0 {
        if d >= 0 {
            0
        } else {
            PI as int
        }
    } else if d == 0 {
        if t > 0 {
            HALF_PI as int
        } else {
            -HALF_PI
        }
    } else {
        let first = quadrant_angle(magnitude(t), magnitude(d));
        let upper = if d > 0 {
            first
        } else {
            PI - first
        };
        if t > 0 {
            upper
        } else {
            -upper
        }
    }
}

/// The angle of a vector is between `-PI` and `PI`, and within these in
/// the quarter that the signs of the components give: from 0 to `HALF_PI`
/// with both positive, from `HALF_PI` to `PI` with `t` positive and `d`
/// negative, and the negatives of these with `t` negative.
pub proof fn lemma_atan2_quadrants(t: int, d: int)
    ensures
        -PI <= atan2_units(t, d) <= PI,
        t > 0 && d > 0 ==> 0 <= atan2_units(t, d) <= HALF_PI,
        t > 0 && d < 0 ==> HALF_PI <= atan2_units(t, d) <= PI,
        t < 0 && d > 0 ==> -HALF_PI <= atan2_units(t, d) <= 0,
        t < 0 && d < 0 ==> -PI <= atan2_units(t, d) <= -HALF_PI,
        t > 0 && magnitude(d) == t ==> atan2_units(t, d) == (if d > 0 {
            QUARTER_PI as int
        } else {
            3 * QUARTER_PI
        }),
{
}

/// Mirroring a vector in the x axis negates its angle, unless the vector
/// lies on the negative x axis, where the angle stays `PI`.
pub proof fn lemma_atan2_mirror(t: int, d: int)
    requires
        t != 0 || d >= 0,
    ensures
        atan2_units(-t, d) == -atan2_units(t, d),
{
}

/// Whether a vector lies on the positive x axis but for a tangent of 61
/// units of `2^-60`: whether `|y| <= x / 2^60 + 60`.
pub open spec fn turned_onto_axis(v: Vectoring) -> bool {
    v.x > 0 && magnitude(v.y) * UNIT <= v.x + 60 * UNIT
}

/// How far from the x axis a vector may be before the step that divides by
/// `p`, which is step `i`: its tangent is at most `2 / p`, but for one unit
/// that each earlier step may have cut off.
pub open spec fn within_reach(v: Vectoring, i: int, p: int) -> bool {
    v.x > 0 && magnitude(v.y) * p <= 2 * v.x + (i - 1) * p
}

/// A step halves the reach: a vector within reach of step `i` is within
/// reach of the next step after it.
proof fn lemma_step_halves_reach(s: Vectoring, i: nat)
    requires
        1 <= i <= STEPS,
        within_reach(s, i as int, pow2(i) as int),
    ensures
        within_reach(vectoring_step(s, i), (i + 1) as int, pow2(i + 1) as int),
{
    let p = pow2(i) as int;
    lemma_pow2_pos(i);
    lemma_pow2_unfold(i + 1);
    let t = vectoring_step(s, i);
    let my = magnitude(s.y);
    let mt = magnitude(t.y);
    let share_y = my / p;
    let share_x = s.x / p;
    assert(0 <= share_y && 0 <= share_x && share_x * p <= s.x < share_x * p + p)
        by (nonlinear_arith)
        requires
            share_y == my / p,
            share_x == s.x / p,
            my >= 0,
            s.x > 0,
            p > 0,
    ;
    assert(t.x == s.x + share_y);
    assert(mt == magnitude(my - share_x));
    if my >= share_x {
        assert(mt * (2 * p) <= 2 * t.x + i * (2 * p)) by (nonlinear_arith)
            requires
                mt == my - share_x,
                s.x < share_x * p + p,
                my * p <= 2 * s.x + (i - 1) * p,
                t.x >= s.x,
                p > 0,
        ;
    } else {
        assert(mt * (2 * p) <= 2 * t.x + i * (2 * p)) by (nonlinear_arith)
            requires
                mt == share_x - my,
                my >= 0,
                share_x * p <= s.x,
                t.x >= s.x,
                p > 0,
                i >= 1,
        ;
    }
}

/// The steps from `i` on turn a vector that is within reach of step `i`
/// onto the x axis.
proof fn lemma_steps_turn_onto_axis(s: Vectoring, i: nat)
    requires
        1 <= i <= STEPS + 1,
        within_reach(s, i as int, pow2(i) as int),
    ensures
        turned_onto_axis(vectoring_from(s, i)),
    decreases STEPS + 1 - i,
{
    if i > STEPS {
        lemma2_to64_rest();
        let p = pow2(i) as int;
        let my = magnitude(s.y);
        assert(my * (UNIT as int) <= s.x + 60 * (UNIT as int)) by (nonlinear_arith)
            requires
                my * p <= 2 * s.x + 60 * p,
                p == 2 * (UNIT as int),
        ;
    } else {
        lemma_step_halves_reach(s, i);
        lemma_steps_turn_onto_axis(vectoring_step(s, i), i + 1);
    }
}

/// The vectoring steps turn every vector of the first octant onto the x
/// axis, but for a tangent of 61 units of `2^-60`: the angle that they add
/// up is the angle of a turn that takes the vector there.
pub proof fn lemma_vectoring_turns_onto_axis(lo: int, hi: int)
    requires
        0 <= lo <= hi,
        0 < hi,
    ensures
        turned_onto_axis(
            vectoring_from(Vectoring { x: scaled(lo, hi).hi, y: scaled(lo, hi).lo, angle: 0 }, 1),
        ),
{
    lemma_scaled_range(lo, hi);
    lemma2_to64();
    lemma_steps_turn_onto_axis(
        Vectoring { x: scaled(lo, hi).hi, y: scaled(lo, hi).lo, angle: 0 },
        1,
    );
}

/// Runs the vectoring steps on a scaled pair.
fn vectoring_angle(lo: u128, hi: u128) -> (r: i128)
    requires
        UNIT <= hi < UNIT_TWICE,
        lo <= hi,
    ensures
        r == vectoring_from(Vectoring { x: hi as int, y: lo as int, angle: 0 }, 1).angle,
{
    let mut x: i128 = hi as i128;
    let mut y: i128 = lo as i128;
    let mut z: i128 = 0;
    let mut p: i128 = 2;
    let mut i: usize = 1;
    proof {
        lemma2_to64();
    }
    while i <= STEPS
        invariant
            1 <= i <= STEPS + 1,
            p == pow2(i as nat),
            magnitude(x as int) <= UNIT * p,
            magnitude(y as int) <= UNIT * p,
            magnitude(z as int) <= UNIT * i,
            vectoring_from(Vectoring { x: x as int, y: y as int, angle: z as int }, i as nat)
                == vectoring_from(Vectoring { x: hi as int, y: lo as int, angle: 0 }, 1),
        decreases STEPS + 1 - i,
    {
        proof {
            lemma_pow2_pos(i as nat);
            lemma_pow2_strictly_increases(i as nat, 61);
            lemma2_to64_rest();
            lemma_pow2_unfold((i + 1) as nat);
            lemma_trunc_div_bound(x as int, p as int, UNIT as int);
            lemma_trunc_div_bound(y as int, p as int, UNIT as int);
        }
        let dx: i128 = div_toward_zero(y, p);
        let dy: i128 = div_toward_zero(x, p);
        let a: i128 = arctan_entry(i);
        if y >= 0 {
            x = x + dx;
            y = y - dy;
            z = z + a;
        } else {
            x = x - dx;
            y = y + dy;
            z = z - a;
        }
        p = p * 2;
        i = i + 1;
    }
    z
}

/// The angle of `(hi, lo)` in the first octant.
fn octant(lo: u128, hi: u128) -> (r: i128)
    requires
        0 < hi < SCALABLE_LIMIT,
        lo <= hi,
    ensures
        r == octant_angle(lo as int, hi as int),
        0 <= r <= QUARTER_PI,
{
    if lo == 0 {
        0
    } else if lo == hi {
        QUARTER_PI
    } else {
        let s = scale(lo, hi);
        let z: i128 = vectoring_angle(s.lo, s.hi);
        if z < 0 {
            0
        } else if z > QUARTER_PI {
            QUARTER_PI
        } else {
            z
        }
    }
}

/// The angle from the positive x axis to the vector `(d, t)`.
pub fn atan2(t: i128, d: i128) -> (r: i128)
    requires
        t > i128::MIN,
        d > i128::MIN,
    ensures
        r == atan2_units(t as int, d as int),
        -PI <= r <= PI,
{
    if t == 0 {
        if d >= 0 {
            0
        } else {
            PI
        }
    } else if d == 0 {
        if t > 0 {
            HALF_PI
        } else {
            -HALF_PI
        }
    } else {
        let mt: u128 = magnitude_of(t);
        let md: u128 = magnitude_of(d);
        let first: i128 = if mt <= md {
            octant(mt, md)
        } else {
            HALF_PI - octant(md, mt)
        };
        let upper: i128 = if d > 0 {
            first
        } else {
            PI - first
        };
        if t > 0 {
            upper
        } else {
            -upper
        }
    }
}

} // verus!
