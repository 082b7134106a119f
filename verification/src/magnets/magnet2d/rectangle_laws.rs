//! What holds of the field of a rectangle at every point and for every
//! magnet.

use vstd::prelude::*;
use crate::rounding::{trunc_div, magnitude, lemma_trunc_div_odd, lemma_trunc_div_scales};
use crate::math::tables::{HALF_PI, PI, TWO_PI, FOUR_PI};
use crate::magnets::magnet2d::RectangleModel;
use crate::magnets::magnet2d::rectangle_field::{
    axis_present, bxx_factor, bxx_singular, bxx_units, bxy_factor, bxy_units, byx_factor,
    byx_units, byy_factor, byy_singular, byy_units, component_units, corner_reached, distance_sq,
    face_angle, face_indeterminate, field_units, x_contribution, x_field_units, x_singular,
    y_contribution, y_field_units, y_singular,
};
use crate::utils::points2::Units2;
use crate::fixed::ONE_RAW;

verus! {

/// Whether `(x, y)` is one of the four corners `(±a, ±b)`.
pub open spec fn at_corner(x: int, y: int, a: int, b: int) -> bool {
    magnitude(x) == a && magnitude(y) == b
}

/// A squared distance is zero only between a point and itself.
proof fn lemma_distance_zero(dx: int, dy: int)
    ensures
        distance_sq(dx, dy) == 0 <==> dx == 0 && dy == 0,
{
    assert(dx * dx >= 0 && (dx * dx == 0 <==> dx == 0)) by (nonlinear_arith);
    assert(dy * dy >= 0 && (dy * dy == 0 <==> dy == 0)) by (nonlinear_arith);
}

/// An arctangent term of a magnet with a positive half-extent `h` is
/// indeterminate only on the face, `s == 0`, and there only at its two
/// ends.
proof fn lemma_face_indeterminate(u: int, h: int, s: int)
    requires
        h > 0,
    ensures
        face_indeterminate(u, h, s) <==> s == 0 && magnitude(u) == h,
{
    assert(2 * h * s == 0 <==> s == 0) by (nonlinear_arith)
        requires
            h > 0,
    ;
    assert(s == 0 ==> s * s == 0);
    assert(u * u == h * h <==> magnitude(u) == h) by (nonlinear_arith)
        requires
            h > 0,
    ;
}

/// The closed forms of a magnet with positive half-extents are
/// indeterminate at its four corners and nowhere else.
pub proof fn lemma_singular_exactly_at_corners(x: int, y: int, a: int, b: int)
    requires
        a > 0,
        b > 0,
    ensures
        bxx_singular(x, y, a, b) <==> at_corner(x, y, a, b),
        byy_singular(x, y, a, b) <==> at_corner(x, y, a, b),
        corner_reached(x, y, a, b) <==> at_corner(x, y, a, b),
        x_singular(x, y, a, b) <==> at_corner(x, y, a, b),
        y_singular(x, y, a, b) <==> at_corner(x, y, a, b),
{
    lemma_face_indeterminate(x, a, b + y);
    lemma_face_indeterminate(x, a, b - y);
    lemma_face_indeterminate(y, b, x + a);
    lemma_face_indeterminate(y, b, x - a);
    lemma_distance_zero(x - a, y - b);
    lemma_distance_zero(x + a, y - b);
    lemma_distance_zero(x - a, y + b);
    lemma_distance_zero(x + a, y + b);
}

/// At a corner of the magnet the field is given as exactly zero, whatever
/// the magnetisation.
pub proof fn lemma_field_zero_at_corners(m: RectangleModel, p: Units2, cutoff: int)
    requires
        m.a > 0,
        m.b > 0,
        at_corner(p.x, p.y, m.a, m.b),
    ensures
        field_units(m, p, cutoff) == Units2::zero(),
{
    lemma_singular_exactly_at_corners(p.x, p.y, m.a, m.b);
}

/// A component of the magnetisation whose share of the remanence is not
/// above the cutoff adds exactly nothing: the field is what the other axis
/// adds alone.
pub proof fn lemma_absent_axis_adds_nothing(m: RectangleModel, p: Units2, cutoff: int)
    ensures
        !axis_present(m.jx, m.jr, cutoff) ==> x_contribution(m, p, cutoff) == Units2::zero()
            && field_units(m, p, cutoff) == y_contribution(m, p, cutoff),
        !axis_present(m.jy, m.jr, cutoff) ==> y_contribution(m, p, cutoff) == Units2::zero()
            && field_units(m, p, cutoff) == x_contribution(m, p, cutoff),
{
}

/// The magnet with the same geometry whose magnetisation is the part along
/// x of the magnetisation of `m`.
pub open spec fn part_along_x(m: RectangleModel) -> RectangleModel {
    RectangleModel { jr: m.jx, jx: m.jx, jy: 0, ..m }
}

/// The magnet with the same geometry whose magnetisation is the part along
/// y of the magnetisation of `m`.
pub open spec fn part_along_y(m: RectangleModel) -> RectangleModel {
    RectangleModel { jr: m.jy, jx: 0, jy: m.jy, ..m }
}

/// Superposition: where both components of a magnetisation are present,
/// the field is the vector sum of the field of a magnet that has the part
/// along x alone and of the field of one that has the part along y alone.
pub proof fn lemma_superposition(m: RectangleModel, p: Units2, cutoff: int)
    requires
        0 <= cutoff < ONE_RAW,
        axis_present(m.jx, m.jr, cutoff),
        axis_present(m.jy, m.jr, cutoff),
    ensures
        field_units(m, p, cutoff) == field_units(part_along_x(m), p, cutoff).plus(
            field_units(part_along_y(m), p, cutoff),
        ),
{
    let mx = part_along_x(m);
    let my = part_along_y(m);
    lemma_pure_axis_present(m.jx, m.jr, cutoff);
    lemma_pure_axis_present(m.jy, m.jr, cutoff);
    lemma_nothing_is_absent(m.jx, cutoff);
    lemma_nothing_is_absent(m.jy, cutoff);
    assert(x_contribution(mx, p, cutoff) == x_contribution(m, p, cutoff));
    assert(y_contribution(my, p, cutoff) == y_contribution(m, p, cutoff));
    assert(y_contribution(mx, p, cutoff) == Units2::zero());
    assert(x_contribution(my, p, cutoff) == Units2::zero());
}

/// A component of 0 is absent from every magnetisation, as long as the
/// cutoff is not negative.
proof fn lemma_nothing_is_absent(jr: int, cutoff: int)
    requires
        0 <= cutoff,
    ensures
        !axis_present(0, jr, cutoff),
{
    let mjr = magnitude(jr);
    assert(cutoff * mjr >= 0) by (nonlinear_arith)
        requires
            cutoff >= 0,
            mjr >= 0,
    ;
}

/// A component that is present in a magnetisation is present when it is
/// the whole magnetisation, as long as the cutoff is below 1.
proof fn lemma_pure_axis_present(j: int, jr: int, cutoff: int)
    requires
        0 <= cutoff < ONE_RAW,
        axis_present(j, jr, cutoff),
    ensures
        axis_present(j, j, cutoff),
{
    let mj = magnitude(j);
    let mjr = magnitude(jr);
    assert(mj > 0) by (nonlinear_arith)
        requires
            mj * ONE_RAW > cutoff * mjr,
            cutoff >= 0,
            mjr >= 0,
            mj >= 0,
    ;
    assert(mj * ONE_RAW > cutoff * mj) by (nonlinear_arith)
        requires
            mj > 0,
            0 <= cutoff < ONE_RAW,
    ;
}

/// Multiplying a magnetisation by a nonzero integer neither adds a
/// component that was absent nor removes one that was present.
proof fn lemma_presence_scales(j: int, jr: int, cutoff: int, k: int)
    requires
        k != 0,
    ensures
        axis_present(k * j, k * jr, cutoff) == axis_present(j, jr, cutoff),
{
    let mk = magnitude(k);
    let mj = magnitude(j);
    let mjr = magnitude(jr);
    assert(magnitude(k * j) == mk * mj) by (nonlinear_arith)
        requires
            mk == magnitude(k),
            mj == magnitude(j),
    ;
    assert(magnitude(k * jr) == mk * mjr) by (nonlinear_arith)
        requires
            mk == magnitude(k),
            mjr == magnitude(jr),
    ;
    assert(k * jr != 0 <==> jr != 0) by (nonlinear_arith)
        requires
            k != 0,
    ;
    assert(((mk * mj) * ONE_RAW > cutoff * (mk * mjr)) <==> (mj * ONE_RAW > cutoff * mjr))
        by (nonlinear_arith)
        requires
            mk > 0,
    ;
}

/// Linearity in the magnetisation, for each field component: before
/// rounding, multiplying the magnetisation by an integer `k` multiplies the
/// component exactly by `k`; after it, up to the `|k| - 1` units that
/// rounding toward zero may cut off. With `k` equal to 1 or -1 the rounded
/// values are proportional exactly.
pub proof fn lemma_component_scales(j: int, factor: int, pi_multiple: int, k: int)
    requires
        pi_multiple > 0,
        k != 0,
    ensures
        (k * j) * factor == k * (j * factor),
        magnitude(
            component_units(k * j, factor, pi_multiple) - k * component_units(
                j,
                factor,
                pi_multiple,
            ),
        ) <= magnitude(k) - 1,
{
    assert((k * j) * factor == k * (j * factor)) by (nonlinear_arith);
    lemma_trunc_div_scales(j * factor, pi_multiple, k);
}

/// Linearity in the magnetisation, for each of the four kernels:
/// multiplying the magnetisation by a nonzero integer `k` multiplies the
/// value by `k`, up to `|k| - 1` units of `2^-48` that rounding may cut
/// off. With `k` equal to 1 or -1 the two sides are equal.
pub proof fn lemma_kernels_scale_with_magnetisation(
    x: int,
    y: int,
    a: int,
    b: int,
    j: int,
    k: int,
)
    requires
        k != 0,
    ensures
        magnitude(bxx_units(x, y, a, b, k * j) - k * bxx_units(x, y, a, b, j)) <= magnitude(k) - 1,
        magnitude(byx_units(x, y, a, b, k * j) - k * byx_units(x, y, a, b, j)) <= magnitude(k) - 1,
        magnitude(bxy_units(x, y, a, b, k * j) - k * bxy_units(x, y, a, b, j)) <= magnitude(k) - 1,
        magnitude(byy_units(x, y, a, b, k * j) - k * byy_units(x, y, a, b, j)) <= magnitude(k) - 1,
{
    lemma_component_scales(j, bxx_factor(x, y, a, b), TWO_PI as int, k);
    lemma_component_scales(j, byx_factor(x, y, a, b), FOUR_PI as int, k);
    lemma_component_scales(j, bxy_factor(x, y, a, b), FOUR_PI as int, k);
    lemma_component_scales(j, byy_factor(x, y, a, b), TWO_PI as int, k);
}

/// Linearity of the field in the magnetisation: multiplying the remanence
/// and both components of the magnetisation by a nonzero integer `k`
/// multiplies each component of the field by `k`, up to `|k| - 1` units of
/// `2^-48` for each of the two axes, which rounding may cut off. With `k`
/// equal to 1 or -1 the two fields are equal: a reversed magnetisation has
/// exactly the reversed field.
pub proof fn lemma_field_scales_with_magnetisation(
    m: RectangleModel,
    p: Units2,
    cutoff: int,
    k: int,
)
    requires
        k != 0,
    ensures
        magnitude(
            field_units(m.magnetised_times(k), p, cutoff).x - k * field_units(m, p, cutoff).x,
        ) <= 2 * (magnitude(k) - 1),
        magnitude(
            field_units(m.magnetised_times(k), p, cutoff).y - k * field_units(m, p, cutoff).y,
        ) <= 2 * (magnitude(k) - 1),
{
    let n = m.magnetised_times(k);
    lemma_presence_scales(m.jx, m.jr, cutoff, k);
    lemma_presence_scales(m.jy, m.jr, cutoff, k);
    lemma_kernels_scale_with_magnetisation(p.x, p.y, m.a, m.b, m.jx, k);
    lemma_kernels_scale_with_magnetisation(p.x, p.y, m.a, m.b, m.jy, k);
    let fx = x_contribution(m, p, cutoff);
    let fy = y_contribution(m, p, cutoff);
    let gx = x_contribution(n, p, cutoff);
    let gy = y_contribution(n, p, cutoff);
    assert(k * 0 == 0);
    assert(n.jx == k * m.jx && n.jy == k * m.jy && n.jr == k * m.jr);
    if axis_present(m.jx, m.jr, cutoff) && !x_singular(p.x, p.y, m.a, m.b) {
        assert(fx == x_field_units(m, p));
        assert(gx == x_field_units(n, p));
    } else {
        assert(fx == Units2::zero());
        assert(gx == Units2::zero());
    }
    if axis_present(m.jy, m.jr, cutoff) && !y_singular(p.x, p.y, m.a, m.b) {
        assert(fy == y_field_units(m, p));
        assert(gy == y_field_units(n, p));
    } else {
        assert(fy == Units2::zero());
        assert(gy == Units2::zero());
    }
    assert(magnitude(gx.x - k * fx.x) <= magnitude(k) - 1 && magnitude(gx.y - k * fx.y)
        <= magnitude(k) - 1);
    assert(magnitude(gy.x - k * fy.x) <= magnitude(k) - 1 && magnitude(gy.y - k * fy.y)
        <= magnitude(k) - 1);
    assert(k * (fx.x + fy.x) == k * fx.x + k * fy.x) by (nonlinear_arith);
    assert(k * (fx.y + fy.y) == k * fx.y + k * fy.y) by (nonlinear_arith);
}

/// A squared distance does not change when a difference changes its sign.
proof fn lemma_distance_mirror(dx: int, dy: int)
    ensures
        distance_sq(-dx, dy) == distance_sq(dx, dy),
        distance_sq(dx, -dy) == distance_sq(dx, dy),
{
    assert((-dx) * (-dx) == dx * dx) by (nonlinear_arith);
    assert((-dy) * (-dy) == dy * dy) by (nonlinear_arith);
}

/// A factor with the opposite sign gives the opposite component.
proof fn lemma_component_odd(j: int, factor: int, pi_multiple: int)
    requires
        pi_multiple > 0,
    ensures
        component_units(j, -factor, pi_multiple) == -component_units(j, factor, pi_multiple),
{
    assert(j * (-factor) == -(j * factor)) by (nonlinear_arith);
    lemma_trunc_div_odd(j * factor, pi_multiple);
}

/// Mirroring the point in the y axis leaves the x component of the field of
/// an x magnetisation as it is and reverses the two cross components, to
/// the last unit.
pub proof fn lemma_mirror_in_y_axis(x: int, y: int, a: int, b: int, j: int)
    ensures
        bxx_units(-x, y, a, b, j) == bxx_units(x, y, a, b, j),
        byx_units(-x, y, a, b, j) == -byx_units(x, y, a, b, j),
        bxy_units(-x, y, a, b, j) == -bxy_units(x, y, a, b, j),
{
    assert((-x) * (-x) == x * x) by (nonlinear_arith);
    lemma_distance_mirror(x + a, y - b);
    lemma_distance_mirror(x + a, y + b);
    lemma_distance_mirror(x - a, y - b);
    lemma_distance_mirror(x - a, y + b);
    assert(-x - a == -(x + a) && -x + a == -(x - a));
    assert(byx_factor(-x, y, a, b) == -byx_factor(x, y, a, b));
    assert(bxy_factor(-x, y, a, b) == -bxy_factor(x, y, a, b));
    lemma_component_odd(j, byx_factor(x, y, a, b), FOUR_PI as int);
    lemma_component_odd(j, bxy_factor(x, y, a, b), FOUR_PI as int);
}

/// Mirroring the point in the x axis leaves the two components along the
/// magnetisation as they are and reverses the two cross components, to the
/// last unit.
pub proof fn lemma_mirror_in_x_axis(x: int, y: int, a: int, b: int, j: int)
    ensures
        bxx_units(x, -y, a, b, j) == bxx_units(x, y, a, b, j),
        byy_units(x, -y, a, b, j) == byy_units(x, y, a, b, j),
        byx_units(x, -y, a, b, j) == -byx_units(x, y, a, b, j),
        bxy_units(x, -y, a, b, j) == -bxy_units(x, y, a, b, j),
{
    assert((-y) * (-y) == y * y) by (nonlinear_arith);
    assert(b + (-y) == b - y && b - (-y) == b + y);
    lemma_distance_mirror(x + a, y - b);
    lemma_distance_mirror(x + a, y + b);
    lemma_distance_mirror(x - a, y - b);
    lemma_distance_mirror(x - a, y + b);
    assert(-y - b == -(y + b) && -y + b == -(y - b));
    assert(byx_factor(x, -y, a, b) == -byx_factor(x, y, a, b));
    assert(bxy_factor(x, -y, a, b) == -bxy_factor(x, y, a, b));
    lemma_component_odd(j, byx_factor(x, y, a, b), FOUR_PI as int);
    lemma_component_odd(j, bxy_factor(x, y, a, b), FOUR_PI as int);
}

/// On the axes of the magnet the cross components vanish: on the y axis the
/// field of either magnetisation has no component across it, and so on the
/// x axis.
pub proof fn lemma_cross_components_vanish_on_axes(x: int, y: int, a: int, b: int, j: int)
    ensures
        byx_units(0, y, a, b, j) == 0,
        bxy_units(0, y, a, b, j) == 0,
        byx_units(x, 0, a, b, j) == 0,
        bxy_units(x, 0, a, b, j) == 0,
{
    lemma_mirror_in_y_axis(0, y, a, b, j);
    lemma_mirror_in_x_axis(x, 0, a, b, j);
}

/// At the centre of a square magnet, and of any magnet whose half-extents
/// are equal, the field is exactly half of the magnetisation, rounded
/// toward zero.
pub proof fn lemma_field_at_centre_of_square(a: int, j: int)
    requires
        a > 0,
    ensures
        bxx_units(0, 0, a, a, j) == trunc_div(j, 2),
        byy_units(0, 0, a, a, j) == trunc_div(j, 2),
        byx_units(0, 0, a, a, j) == 0,
        bxy_units(0, 0, a, a, j) == 0,
{
    lemma_cross_components_vanish_on_axes(0, 0, a, a, j);
    assert(2 * a * a > 0 && 2 * a * (-a) < 0 && 0 * 0 - a * a + a * a == 0 && (-a) * (-a) == a
        * a) by (nonlinear_arith)
        requires
            a > 0,
    ;
    assert(face_angle(0, a, a) == HALF_PI);
    assert(face_angle(0, a, -a) == -HALF_PI);
    lemma_half_turn_share(j);
}

/// A magnetisation times pi, divided by twice pi, is half of it.
proof fn lemma_half_turn_share(j: int)
    ensures
        trunc_div(j * (PI as int), TWO_PI as int) == trunc_div(j, 2),
{
    let q = PI as int;
    let m = magnitude(j);
    assert((m * q) / (2 * q) == m / 2) by (nonlinear_arith)
        requires
            q > 0,
            m >= 0,
    ;
    assert(j >= 0 ==> j * q == m * q) by (nonlinear_arith)
        requires
            m == magnitude(j),
    ;
    assert(j < 0 ==> -(j * q) == m * q && j * q < 0) by (nonlinear_arith)
        requires
            m == magnitude(j),
            q > 0,
    ;
    assert(j >= 0 ==> j * q >= 0) by (nonlinear_arith)
        requires
            q > 0,
    ;
}

} // verus!
