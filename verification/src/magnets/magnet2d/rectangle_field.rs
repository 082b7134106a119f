//! The field of a rectangle that is magnetised uniformly.
//!
//! The rectangle has half-width `a` and half-height `b` and is centred at
//! the origin of its own frame, with its sides along the axes. Four kernels
//! give the two components of the field for a magnetisation along x and for
//! one along y; the field of any other magnetisation is the sum of the two.

use vstd::prelude::*;
use crate::fixed::{Fixed, in_range};
use crate::rounding::{trunc_div, magnitude, magnitude_of, div_toward_zero, lemma_trunc_div_bound, lemma_trunc_div_share};
use crate::math::arctan::{atan2_units, atan2};
use crate::math::logarithm::{ln_units, ln};
use crate::math::scaling::SCALABLE_LIMIT;
use crate::math::tables::{PI, TWO_PI, FOUR_PI, LN_2};
use crate::magnets::magnet2d::{FieldError, Rectangle, RectangleModel, REMANENCE_LIMIT};
use crate::utils::points2::{Point2, Units2};
use crate::fixed::ONE_RAW;
use crate::FP_CUTOFF;

verus! {

/// The numerator of an arctangent term: twice the half-extent `h` across
/// the magnetisation times the offset `s` of the point from a face.
pub open spec fn face_top(h: int, s: int) -> int {
    2 * h * s
}

/// The denominator of an arctangent term, for the coordinate `u` along the
/// magnetisation, the half-extent `h` along it and the offset `s` from a
/// face.
pub open spec fn face_bottom(u: int, h: int, s: int) -> int {
    u * u - h * h + s * s
}

/// The angle of an arctangent term, in units of `2^-60` radians.
pub open spec fn face_angle(u: int, h: int, s: int) -> int {
    atan2_units(face_top(h, s), face_bottom(u, h, s))
}

/// Whether an arctangent term has both arguments zero.
pub open spec fn face_indeterminate(u: int, h: int, s: int) -> bool {
    face_top(h, s) == 0 && face_bottom(u, h, s) == 0
}

/// The square of the distance between two points that differ by
/// `(dx, dy)`.
pub open spec fn distance_sq(dx: int, dy: int) -> int {
    dx * dx + dy * dy
}

/// The logarithm of the ratio of two positive squared distances, in units
/// of `2^-60`.
pub open spec fn ln_ratio(top: int, bottom: int) -> int {
    ln_units(top) - ln_units(bottom)
}

/// Whether `(x, y)` is at no distance from one of the corners `(±a, ±b)`.
pub open spec fn corner_reached(x: int, y: int, a: int, b: int) -> bool {
    distance_sq(x - a, y - b) == 0 || distance_sq(x + a, y - b) == 0 || distance_sq(x - a, y + b)
        == 0 || distance_sq(x + a, y + b) == 0
}

/// Whether the x component of the field of an x magnetisation is
/// indeterminate at `(x, y)`.
pub open spec fn bxx_singular(x: int, y: int, a: int, b: int) -> bool {
    face_indeterminate(x, a, b + y) || face_indeterminate(x, a, b - y)
}

/// Whether the y component of the field of a y magnetisation is
/// indeterminate at `(x, y)`.
pub open spec fn byy_singular(x: int, y: int, a: int, b: int) -> bool {
    face_indeterminate(y, b, x + a) || face_indeterminate(y, b, x - a)
}

/// What the x component of the field of a magnetisation along x is per
/// unit of magnetisation, times two pi: the sum of the angles of the two
/// faces across x, in units of `2^-60`.
pub open spec fn bxx_factor(x: int, y: int, a: int, b: int) -> int {
    face_angle(x, a, b + y) + face_angle(x, a, b - y)
}

/// What the y component of the field of a magnetisation along x is per
/// unit of magnetisation, times four pi: the difference of two logarithms
/// of ratios of squared distances to the corners, negated.
pub open spec fn byx_factor(x: int, y: int, a: int, b: int) -> int {
    -(ln_ratio(distance_sq(x - a, y - b), distance_sq(x + a, y - b)) - ln_ratio(
        distance_sq(x - a, y + b),
        distance_sq(x + a, y + b),
    ))
}

/// What the x component of the field of a magnetisation along y is per
/// unit of magnetisation, times four pi: the difference of two logarithms
/// of ratios of squared distances to the corners.
pub open spec fn bxy_factor(x: int, y: int, a: int, b: int) -> int {
    ln_ratio(distance_sq(x + a, y - b), distance_sq(x + a, y + b)) - ln_ratio(
        distance_sq(x - a, y - b),
        distance_sq(x - a, y + b),
    )
}

/// What the y component of the field of a magnetisation along y is per
/// unit of magnetisation, times two pi: the difference of the angles of
/// the two faces across y, in units of `2^-60`.
pub open spec fn byy_factor(x: int, y: int, a: int, b: int) -> int {
    face_angle(y, b, x + a) - face_angle(y, b, x - a)
}

/// A field component: the magnetisation `j` times the factor that the
/// geometry gives, divided by the multiple of pi that the factor holds, and
/// rounded toward zero. The magnetisation has no part in the factor: the
/// component is linear in it but for the rounding.
pub open spec fn component_units(j: int, factor: int, pi_multiple: int) -> int {
    trunc_div(j * factor, pi_multiple)
}

/// The x component of the field of the magnetisation `j` along x.
pub open spec fn bxx_units(x: int, y: int, a: int, b: int, j: int) -> int {
    component_units(j, bxx_factor(x, y, a, b), TWO_PI as int)
}

/// The y component of the field of the magnetisation `j` along x.
pub open spec fn byx_units(x: int, y: int, a: int, b: int, j: int) -> int {
    component_units(j, byx_factor(x, y, a, b), FOUR_PI as int)
}

/// The x component of the field of the magnetisation `j` along y.
pub open spec fn bxy_units(x: int, y: int, a: int, b: int, j: int) -> int {
    component_units(j, bxy_factor(x, y, a, b), FOUR_PI as int)
}

/// The y component of the field of the magnetisation `j` along y.
pub open spec fn byy_units(x: int, y: int, a: int, b: int, j: int) -> int {
    component_units(j, byy_factor(x, y, a, b), TWO_PI as int)
}

/// What a kernel returns: an error where the closed form is indeterminate
/// or its value cannot be held, the value otherwise.
pub open spec fn kernel_outcome(r: Result<Fixed, FieldError>, singular: bool, units: int) -> bool {
    if singular {
        r == Err::<Fixed, FieldError>(FieldError::Singularity)
    } else if !in_range(units) {
        r == Err::<Fixed, FieldError>(FieldError::Domain)
    } else {
        r is Ok && r.unwrap()@ == units
    }
}

/// The product of two numbers of at most 63 bits each.
fn product(u: i128, v: i128) -> (r: i128)
    requires
        -0x4000_0000_0000_0000 <= u <= 0x4000_0000_0000_0000,
        -0x4000_0000_0000_0000 <= v <= 0x4000_0000_0000_0000,
    ensures
        r == u * v,
        -0x1000_0000_0000_0000_0000_0000_0000_0000 <= r <= 0x1000_0000_0000_0000_0000_0000_0000_0000,
{
    assert(-0x1000_0000_0000_0000_0000_0000_0000_0000 <= u * v
        <= 0x1000_0000_0000_0000_0000_0000_0000_0000) by (nonlinear_arith)
        requires
            -0x4000_0000_0000_0000 <= u <= 0x4000_0000_0000_0000,
            -0x4000_0000_0000_0000 <= v <= 0x4000_0000_0000_0000,
    ;
    u * v
}

/// The square of a number of at most 63 bits.
fn square(u: i128) -> (r: i128)
    requires
        -0x4000_0000_0000_0000 <= u <= 0x4000_0000_0000_0000,
    ensures
        r == u * u,
        0 <= r <= 0x1000_0000_0000_0000_0000_0000_0000_0000,
{
    assert(0 <= u * u) by (nonlinear_arith);
    product(u, u)
}

/// `j * s / d` rounded toward zero, if it is within range.
fn scaled_quotient(j: i128, s: i128, d: i128) -> (r: Option<Fixed>)
    requires
        0 < d < 0x1_0000_0000_0000_0000,
    ensures
        r is Some <==> in_range(trunc_div(j * s, d as int)),
        r is Some ==> r.unwrap()@ == trunc_div(j * s, d as int),
{
    match j.checked_mul(s) {
        Some(n) => Fixed::from_wide(div_toward_zero(n, d)),
        None => {
            proof {
                let n = j * s;
                let m = magnitude(n);
                assert(m / (d as int) >= 0x4000_0000_0000_0000) by (nonlinear_arith)
                    requires
                        m >= 0x4000_0000_0000_0000_0000_0000_0000_0000,
                        0 < d < 0x1_0000_0000_0000_0000,
                ;
            }
            None
        },
    }
}

/// The angle of an arctangent term and whether the term is indeterminate.
fn face_term(u: i128, h: i128, s: i128) -> (r: (i128, bool))
    requires
        -0x2000_0000_0000_0000 <= u <= 0x2000_0000_0000_0000,
        -0x2000_0000_0000_0000 <= h <= 0x2000_0000_0000_0000,
        -0x4000_0000_0000_0000 <= s <= 0x4000_0000_0000_0000,
    ensures
        r.0 == face_angle(u as int, h as int, s as int),
        r.1 == face_indeterminate(u as int, h as int, s as int),
        -PI <= r.0 <= PI,
{
    let top: i128 = product(2 * h, s);
    let bottom: i128 = square(u) - square(h) + square(s);
    assert(2 * h * s == (2 * h) * s) by (nonlinear_arith);
    (atan2(top, bottom), top == 0 && bottom == 0)
}

/// The square of the distance between two points that differ by
/// `(dx, dy)`.
fn squared_distance(dx: i128, dy: i128) -> (r: u128)
    requires
        -0x4000_0000_0000_0000 <= dx <= 0x4000_0000_0000_0000,
        -0x4000_0000_0000_0000 <= dy <= 0x4000_0000_0000_0000,
    ensures
        r == distance_sq(dx as int, dy as int),
        r <= 0x2000_0000_0000_0000_0000_0000_0000_0000,
{
    (square(dx) + square(dy)) as u128
}

/// Returns the x component of the field at `(x, y)` of a rectangle that is
/// magnetised along x with the magnitude `j`.
///
/// The value is indeterminate where one of the two arctangent terms has
/// both arguments zero. It is never larger in magnitude than `j`.
pub fn field_in_x_for_x_mag(x: Fixed, y: Fixed, a: Fixed, b: Fixed, j: Fixed) -> (r: Result<
    Fixed,
    FieldError,
>)
    ensures
        kernel_outcome(r, bxx_singular(x@, y@, a@, b@), bxx_units(x@, y@, a@, b@, j@)),
        r is Ok <==> !bxx_singular(x@, y@, a@, b@),
        r is Ok ==> magnitude(r.unwrap()@) <= magnitude(j@),
{
    let first = face_term(x.wide(), a.wide(), b.wide() + y.wide());
    let second = face_term(x.wide(), a.wide(), b.wide() - y.wide());
    if first.1 || second.1 {
        return Err(FieldError::Singularity);
    }
    let sum: i128 = first.0 + second.0;
    proof {
        lemma_trunc_div_share(j@, sum as int, TWO_PI as int);
    }
    match scaled_quotient(j.wide(), sum, TWO_PI) {
        Some(v) => Ok(v),
        None => Err(FieldError::Domain),
    }
}

/// Returns the y component of the field at `(x, y)` of a rectangle that is
/// magnetised along y with the magnitude `j`.
///
/// The value is indeterminate where one of the two arctangent terms has
/// both arguments zero. It is never larger in magnitude than `j`.
pub fn field_in_y_for_y_mag(x: Fixed, y: Fixed, a: Fixed, b: Fixed, j: Fixed) -> (r: Result<
    Fixed,
    FieldError,
>)
    ensures
        kernel_outcome(r, byy_singular(x@, y@, a@, b@), byy_units(x@, y@, a@, b@, j@)),
        r is Ok <==> !byy_singular(x@, y@, a@, b@),
        r is Ok ==> magnitude(r.unwrap()@) <= magnitude(j@),
{
    let first = face_term(y.wide(), b.wide(), x.wide() + a.wide());
    let second = face_term(y.wide(), b.wide(), x.wide() - a.wide());
    if first.1 || second.1 {
        return Err(FieldError::Singularity);
    }
    let difference: i128 = first.0 - second.0;
    proof {
        lemma_trunc_div_share(j@, difference as int, TWO_PI as int);
    }
    match scaled_quotient(j.wide(), difference, TWO_PI) {
        Some(v) => Ok(v),
        None => Err(FieldError::Domain),
    }
}

/// A magnetisation times a difference of logarithms of ratios of squared
/// distances, divided by four pi, is at most 15 times the magnetisation in
/// magnitude.
proof fn lemma_log_share(j: int, logs: int)
    requires
        -254 * LN_2 <= logs <= 254 * LN_2,
    ensures
        magnitude(trunc_div(j * logs, FOUR_PI as int)) <= 15 * magnitude(j),
{
    let m = magnitude(j);
    assert(magnitude(j * logs) <= (15 * m) * FOUR_PI) by (nonlinear_arith)
        requires
            m == magnitude(j),
            -254 * LN_2 <= logs <= 254 * LN_2,
            254 * LN_2 <= 15 * FOUR_PI,
    ;
    lemma_trunc_div_bound(j * logs, FOUR_PI as int, 15 * m);
}

/// The difference of the logarithms of two ratios of squared distances, and
/// whether one of the four distances is zero, in which case the difference
/// is given as 0.
fn corner_logs(top_1: u128, bottom_1: u128, top_2: u128, bottom_2: u128) -> (r: (i128, bool))
    requires
        top_1 < SCALABLE_LIMIT,
        bottom_1 < SCALABLE_LIMIT,
        top_2 < SCALABLE_LIMIT,
        bottom_2 < SCALABLE_LIMIT,
    ensures
        r.1 == (top_1 == 0 || bottom_1 == 0 || top_2 == 0 || bottom_2 == 0),
        !r.1 ==> r.0 == ln_ratio(top_1 as int, bottom_1 as int) - ln_ratio(
            top_2 as int,
            bottom_2 as int,
        ),
        -254 * LN_2 <= r.0 <= 254 * LN_2,
{
    if top_1 == 0 || bottom_1 == 0 || top_2 == 0 || bottom_2 == 0 {
        (0, true)
    } else {
        ((ln(top_1) - ln(bottom_1)) - (ln(top_2) - ln(bottom_2)), false)
    }
}

/// Returns the y component of the field at `(x, y)` of a rectangle that is
/// magnetised along x with the magnitude `j`.
///
/// The value is indeterminate at the four corners, and grows without bound
/// toward them: next to a corner it may be too large to hold.
pub fn field_in_y_for_x_mag(x: Fixed, y: Fixed, a: Fixed, b: Fixed, j: Fixed) -> (r: Result<
    Fixed,
    FieldError,
>)
    ensures
        kernel_outcome(r, corner_reached(x@, y@, a@, b@), byx_units(x@, y@, a@, b@, j@)),
        magnitude(j@) <= REMANENCE_LIMIT && !corner_reached(x@, y@, a@, b@) ==> r is Ok,
        r is Ok ==> magnitude(r.unwrap()@) <= 15 * magnitude(j@),
{
    let x_plus_a: i128 = x.wide() + a.wide();
    let x_minus_a: i128 = x.wide() - a.wide();
    let y_plus_b: i128 = y.wide() + b.wide();
    let y_minus_b: i128 = y.wide() - b.wide();
    let logs = corner_logs(
        squared_distance(x_minus_a, y_minus_b),
        squared_distance(x_plus_a, y_minus_b),
        squared_distance(x_minus_a, y_plus_b),
        squared_distance(x_plus_a, y_plus_b),
    );
    if logs.1 {
        return Err(FieldError::Singularity);
    }
    proof {
        lemma_log_share(j@, -logs.0 as int);
    }
    match scaled_quotient(j.wide(), -logs.0, FOUR_PI) {
        Some(v) => Ok(v),
        None => Err(FieldError::Domain),
    }
}

/// Returns the x component of the field at `(x, y)` of a rectangle that is
/// magnetised along y with the magnitude `j`.
///
/// The value is indeterminate at the four corners, and grows without bound
/// toward them: next to a corner it may be too large to hold.
pub fn field_in_x_for_y_mag(x: Fixed, y: Fixed, a: Fixed, b: Fixed, j: Fixed) -> (r: Result<
    Fixed,
    FieldError,
>)
    ensures
        kernel_outcome(r, corner_reached(x@, y@, a@, b@), bxy_units(x@, y@, a@, b@, j@)),
        magnitude(j@) <= REMANENCE_LIMIT && !corner_reached(x@, y@, a@, b@) ==> r is Ok,
        r is Ok ==> magnitude(r.unwrap()@) <= 15 * magnitude(j@),
{
    let x_plus_a: i128 = x.wide() + a.wide();
    let x_minus_a: i128 = x.wide() - a.wide();
    let y_plus_b: i128 = y.wide() + b.wide();
    let y_minus_b: i128 = y.wide() - b.wide();
    let logs = corner_logs(
        squared_distance(x_plus_a, y_minus_b),
        squared_distance(x_plus_a, y_plus_b),
        squared_distance(x_minus_a, y_minus_b),
        squared_distance(x_minus_a, y_plus_b),
    );
    if logs.1 {
        return Err(FieldError::Singularity);
    }
    proof {
        lemma_log_share(j@, logs.0 as int);
    }
    match scaled_quotient(j.wide(), logs.0, FOUR_PI) {
        Some(v) => Ok(v),
        None => Err(FieldError::Domain),
    }
}

/// Whether the component `j` of a magnetisation of magnitude `jr` counts as
/// present: whether `|j / jr|` is above the cutoff, which is a number in
/// units of `2^-48` as `j` and `jr` are. No component of a magnetisation of
/// magnitude 0 is present.
pub open spec fn axis_present(j: int, jr: int, cutoff: int) -> bool {
    jr != 0 && magnitude(j) * ONE_RAW > cutoff * magnitude(jr)
}

/// Whether the field of a magnetisation along x is indeterminate at
/// `(x, y)`.
pub open spec fn x_singular(x: int, y: int, a: int, b: int) -> bool {
    bxx_singular(x, y, a, b) || corner_reached(x, y, a, b)
}

/// Whether the field of a magnetisation along y is indeterminate at
/// `(x, y)`.
pub open spec fn y_singular(x: int, y: int, a: int, b: int) -> bool {
    corner_reached(x, y, a, b) || byy_singular(x, y, a, b)
}

/// The field at `p`, in the frame of the magnet, of the part of the
/// magnetisation that lies along x.
pub open spec fn x_field_units(m: RectangleModel, p: Units2) -> Units2 {
    Units2 { x: bxx_units(p.x, p.y, m.a, m.b, m.jx), y: byx_units(p.x, p.y, m.a, m.b, m.jx) }
}

/// The field at `p`, in the frame of the magnet, of the part of the
/// magnetisation that lies along y.
pub open spec fn y_field_units(m: RectangleModel, p: Units2) -> Units2 {
    Units2 { x: bxy_units(p.x, p.y, m.a, m.b, m.jy), y: byy_units(p.x, p.y, m.a, m.b, m.jy) }
}

/// What the magnetisation along x adds to the field: its field where the
/// component is present and the closed form is determinate, nothing
/// elsewhere.
pub open spec fn x_contribution(m: RectangleModel, p: Units2, cutoff: int) -> Units2 {
    if axis_present(m.jx, m.jr, cutoff) && !x_singular(p.x, p.y, m.a, m.b) {
        x_field_units(m, p)
    } else {
        Units2::zero()
    }
}

/// What the magnetisation along y adds to the field: its field where the
/// component is present and the closed form is determinate, nothing
/// elsewhere.
pub open spec fn y_contribution(m: RectangleModel, p: Units2, cutoff: int) -> Units2 {
    if axis_present(m.jy, m.jr, cutoff) && !y_singular(p.x, p.y, m.a, m.b) {
        y_field_units(m, p)
    } else {
        Units2::zero()
    }
}

/// The field of the magnet at `p`, in the frame of the magnet: the sum of
/// what the two axes add.
pub open spec fn field_units(m: RectangleModel, p: Units2, cutoff: int) -> Units2 {
    x_contribution(m, p, cutoff).plus(y_contribution(m, p, cutoff))
}

/// Returns the magnetic field vector at a point due to a rectangle
/// magnetised in x.
///
/// The point is given in the frame of the magnet. At a corner of the magnet
/// the field is indeterminate.
pub fn magnetic_field_x(magnet: &Rectangle, point: &Point2) -> (r: Result<Point2, FieldError>)
    ensures
        x_singular(point@.x, point@.y, magnet@.a, magnet@.b) ==> r == Err::<Point2, FieldError>(
            FieldError::Singularity,
        ),
        !x_singular(point@.x, point@.y, magnet@.a, magnet@.b) ==> r is Ok && r.unwrap()@
            == x_field_units(magnet@, point@),
        r is Ok ==> magnitude(r.unwrap()@.x) <= magnitude(magnet@.jx) && magnitude(r.unwrap()@.y)
            <= 15 * magnitude(magnet@.jx),
{
    proof {
        use_type_invariant(magnet);
    }
    let x = match field_in_x_for_x_mag(point.x, point.y, magnet.a(), magnet.b(), magnet.jx()) {
        Ok(value) => value,
        Err(e) => {
            return Err(e);
        },
    };
    let y = match field_in_y_for_x_mag(point.x, point.y, magnet.a(), magnet.b(), magnet.jx()) {
        Ok(value) => value,
        Err(e) => {
            return Err(e);
        },
    };
    Ok(Point2 { x, y })
}

/// Returns the magnetic field vector at a point due to a rectangle
/// magnetised in y.
///
/// The point is given in the frame of the magnet. At a corner of the magnet
/// the field is indeterminate.
pub fn magnetic_field_y(magnet: &Rectangle, point: &Point2) -> (r: Result<Point2, FieldError>)
    ensures
        y_singular(point@.x, point@.y, magnet@.a, magnet@.b) ==> r == Err::<Point2, FieldError>(
            FieldError::Singularity,
        ),
        !y_singular(point@.x, point@.y, magnet@.a, magnet@.b) ==> r is Ok && r.unwrap()@
            == y_field_units(magnet@, point@),
        r is Ok ==> magnitude(r.unwrap()@.x) <= 15 * magnitude(magnet@.jy) && magnitude(
            r.unwrap()@.y,
        ) <= magnitude(magnet@.jy),
{
    proof {
        use_type_invariant(magnet);
    }
    let x = match field_in_x_for_y_mag(point.x, point.y, magnet.a(), magnet.b(), magnet.jy()) {
        Ok(value) => value,
        Err(e) => {
            return Err(e);
        },
    };
    let y = match field_in_y_for_y_mag(point.x, point.y, magnet.a(), magnet.b(), magnet.jy()) {
        Ok(value) => value,
        Err(e) => {
            return Err(e);
        },
    };
    Ok(Point2 { x, y })
}

/// Whether a component of the magnetisation of a magnet counts as present.
fn axis_is_present(j: Fixed, jr: Fixed, cutoff: Fixed) -> (r: bool)
    requires
        magnitude(j@) <= REMANENCE_LIMIT,
        magnitude(jr@) <= REMANENCE_LIMIT,
    ensures
        r == axis_present(j@, jr@, cutoff@),
{
    let mj: i128 = magnitude_of(j.wide()) as i128;
    let mjr: i128 = magnitude_of(jr.wide()) as i128;
    mjr != 0 && mj * (ONE_RAW as i128) > product(cutoff.wide(), mjr)
}

/// Returns the magnetic field vector due to a rectangle of width `2a` and
/// height `2b` centred at the origin, with an arbitrary magnetisation, where
/// the caller sets the cutoff below which a component of the magnetisation
/// is left out.
///
/// The point is given in the frame of the magnet. A component of the
/// magnetisation adds its field if its share of the remanence is above
/// `cutoff`. At a corner of the magnet, where the closed forms are
/// indeterminate, it adds nothing. The evaluation always succeeds.
pub fn get_field_rectangle_with_cutoff(magnet: &Rectangle, point: &Point2, cutoff: Fixed) -> (r:
    Result<Point2, FieldError>)
    ensures
        r is Ok,
        r.unwrap()@ == field_units(magnet@, point@, cutoff@),
        magnitude(r.unwrap()@.x) <= 16 * magnitude(magnet@.jr),
        magnitude(r.unwrap()@.y) <= 16 * magnitude(magnet@.jr),
{
    proof {
        use_type_invariant(magnet);
    }
    let mut field = Point2::zero();
    let x_part = if axis_is_present(magnet.jx(), magnet.jr(), cutoff) {
        match magnetic_field_x(magnet, point) {
            Ok(value) => value,
            // The closed form is indeterminate here: the axis adds nothing.
            Err(_e) => Point2::zero(),
        }
    } else {
        Point2::zero()
    };
    let done_x = field.accumulate(x_part);
    assert(done_x);
    let y_part = if axis_is_present(magnet.jy(), magnet.jr(), cutoff) {
        match magnetic_field_y(magnet, point) {
            Ok(value) => value,
            Err(_e) => Point2::zero(),
        }
    } else {
        Point2::zero()
    };
    let done_y = field.accumulate(y_part);
    assert(done_y);
    Ok(field)
}

/// Returns the magnetic field vector due to a rectangle of width `2a` and
/// height `2b` centred at the origin, with an arbitrary magnetisation.
///
/// The point is given in the frame of the magnet. A component of the
/// magnetisation adds its field if its share of the remanence is above
/// [`FP_CUTOFF`]. At a corner of the magnet, where the closed forms are
/// indeterminate, it adds nothing. The evaluation always succeeds.
pub fn get_field_rectangle(magnet: &Rectangle, point: &Point2) -> (r: Result<Point2, FieldError>)
    ensures
        r is Ok,
        r.unwrap()@ == field_units(magnet@, point@, FP_CUTOFF as int),
        magnitude(r.unwrap()@.x) <= 16 * magnitude(magnet@.jr),
        magnitude(r.unwrap()@.y) <= 16 * magnitude(magnet@.jr),
{
    let cutoff = Fixed::from_raw(FP_CUTOFF).unwrap();
    get_field_rectangle_with_cutoff(magnet, point, cutoff)
}

/// Whether a point given in the frame that the magnet is placed in can be
/// brought into the frame of the magnet: the magnet has its sides along the
/// axes, and the point is not too far from its centre to be held.
pub open spec fn transformable(m: RectangleModel, p: Units2) -> bool {
    m.alpha == 0 && p.minus(m.center).in_range()
}

/// Brings a point from the frame that the magnet is placed in into the frame
/// of the magnet, whose origin is the centre of the magnet.
///
/// A magnet that is turned against the axes, and a point that is too far
/// from the centre to be held, are refused as [`FieldError::Domain`].
pub fn to_local_frame(magnet: &Rectangle, point: &Point2) -> (r: Result<Point2, FieldError>)
    ensures
        !transformable(magnet@, point@) ==> r == Err::<Point2, FieldError>(FieldError::Domain),
        transformable(magnet@, point@) ==> r is Ok && r.unwrap()@ == point@.minus(magnet@.center),
{
    if magnet.alpha() != 0 {
        return Err(FieldError::Domain);
    }
    match point.checked_sub(magnet.center()) {
        Some(local) => Ok(local),
        None => Err(FieldError::Domain),
    }
}

/// Returns the magnetic field vector of a magnet at a point that is given
/// in the frame that the magnet is placed in.
///
/// The point is brought into the frame of the magnet and the field is
/// evaluated there as [`get_field_rectangle`] does. A magnet that is turned
/// against the axes, and a point that is too far from the centre to be
/// held, are refused as [`FieldError::Domain`].
pub fn get_field_rectangle_global(magnet: &Rectangle, point: &Point2) -> (r: Result<
    Point2,
    FieldError,
>)
    ensures
        !transformable(magnet@, point@) ==> r == Err::<Point2, FieldError>(FieldError::Domain),
        transformable(magnet@, point@) ==> r is Ok && r.unwrap()@ == field_units(
            magnet@,
            point@.minus(magnet@.center),
            FP_CUTOFF as int,
        ),
{
    match to_local_frame(magnet, point) {
        Ok(local) => get_field_rectangle(magnet, &local),
        Err(e) => Err(e),
    }
}

/// Returns the magnetic field vectors of a magnet at each of the points,
/// which are given in the frame of the magnet, in their order.
///
/// Each point is evaluated by itself, as [`get_field_rectangle`] does.
pub fn get_field_rectangle_over(magnet: &Rectangle, points: &Vec<Point2>) -> (r: Vec<Point2>)
    ensures
        r.len() == points.len(),
        forall|i: int|
            0 <= i < points.len() ==> (#[trigger] r[i])@ == field_units(
                magnet@,
                points[i]@,
                FP_CUTOFF as int,
            ),
{
    let mut fields: Vec<Point2> = Vec::new();
    let mut i: usize = 0;
    while i < points.len()
        invariant
            i <= points.len(),
            fields.len() == i,
            forall|k: int|
                0 <= k < i ==> (#[trigger] fields[k])@ == field_units(
                    magnet@,
                    points[k]@,
                    FP_CUTOFF as int,
                ),
        decreases points.len() - i,
    {
        let field = get_field_rectangle(magnet, &points[i]).unwrap();
        fields.push(field);
        i = i + 1;
    }
    fields
}

} // verus!
