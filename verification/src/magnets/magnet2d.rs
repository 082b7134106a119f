//! Magnets in the plane.

pub mod rectangle_field;
pub mod rectangle_laws;

use vstd::prelude::*;
use crate::fixed::{Fixed, in_range};
use crate::rounding::{trunc_div, magnitude, lemma_trunc_div_share, div_toward_zero};
use crate::math::scaling::UNIT;
use crate::math::sincos::{cos_sin_units, cos_sin, on_unit_circle, lemma_cos_sin_on_circle};
use crate::utils::points2::{Point2, Units2};

verus! {

/// Why a magnet could not be described or a field value could not be given.
#[derive(Clone, Copy, Debug, PartialEq, Eq, Structural)]
pub enum FieldError {
    /// The width or the height of a magnet is not positive.
    InvalidGeometry,
    /// The closed form is indeterminate at the point: the point is a corner
    /// of the magnet.
    Singularity,
    /// The request lies outside of what the formulas and the number format
    /// cover.
    Domain,
}

/// The largest magnitude of a remanence: `2^57` units, that is 512.0.
///
/// Next to a corner of a magnet a field component may reach 15 times the
/// magnetisation that it is due to; with this limit the field can still be
/// held.
pub const REMANENCE_LIMIT: i64 = 0x0200_0000_0000_0000;

/// What a rectangular magnet is, in counts of units.
pub struct RectangleModel {
    /// Half of the width.
    pub a: int,
    /// Half of the height.
    pub b: int,
    /// The position of the centre.
    pub center: Units2,
    /// The tag of the orientation; 0 for sides along the axes.
    pub alpha: int,
    /// The remanence.
    pub jr: int,
    /// The angle of the magnetisation, in degrees.
    pub phi: int,
    /// The component of the magnetisation along x.
    pub jx: int,
    /// The component of the magnetisation along y.
    pub jy: int,
}

impl RectangleModel {
    /// What holds of every magnet: its half-extents are positive, its
    /// remanence is within the limit, neither component of the
    /// magnetisation exceeds the remanence, and the two components make up
    /// the remanence but for what rounding left out.
    pub open spec fn valid(self) -> bool {
        &&& 0 < self.a && in_range(self.a)
        &&& 0 < self.b && in_range(self.b)
        &&& self.center.in_range()
        &&& in_range(self.phi)
        &&& magnitude(self.jr) <= REMANENCE_LIMIT
        &&& magnitude(self.jx) <= magnitude(self.jr)
        &&& magnitude(self.jy) <= magnitude(self.jr)
        &&& keeps_remanence(self.jx, self.jy, self.jr)
    }

    /// The same magnet with its magnetisation multiplied by the integer
    /// `k`.
    pub open spec fn magnetised_times(self, k: int) -> RectangleModel {
        RectangleModel { jr: k * self.jr, jx: k * self.jx, jy: k * self.jy, ..self }
    }
}

/// Whether the squares of the components `jx` and `jy` add up to the square
/// of the remanence `jr`, but for what rounding the components toward zero
/// left out: the sum is not larger, and smaller by no more than five times
/// the remanence and two, in squares of units.
pub open spec fn keeps_remanence(jx: int, jy: int, jr: int) -> bool {
    jr * jr - 5 * magnitude(jr) - 2 <= jx * jx + jy * jy <= jr * jr
}

/// The components of a magnetisation along a direction on the unit circle
/// keep the remanence.
pub proof fn lemma_components_keep_remanence(jr: int, cosine: int, sine: int)
    requires
        magnitude(jr) <= REMANENCE_LIMIT,
        -UNIT <= cosine <= UNIT,
        -UNIT <= sine <= UNIT,
        on_unit_circle((cosine, sine)),
    ensures
        keeps_remanence(component(jr, cosine), component(jr, sine), jr),
{
    let u = UNIT as int;
    let j = magnitude(jr);
    let c = magnitude(cosine);
    let s = magnitude(sine);
    let x = magnitude(component(jr, cosine));
    let y = magnitude(component(jr, sine));
    lemma_component_magnitude(jr, cosine);
    lemma_component_magnitude(jr, sine);
    assert(c * c == cosine * cosine && s * s == sine * sine && j * j == jr * jr) by (nonlinear_arith)
        requires
            c == magnitude(cosine),
            s == magnitude(sine),
            j == magnitude(jr),
    ;
    assert(x * x == component(jr, cosine) * component(jr, cosine) && y * y == component(jr, sine)
        * component(jr, sine)) by (nonlinear_arith)
        requires
            x == magnitude(component(jr, cosine)),
            y == magnitude(component(jr, sine)),
    ;
    // Rounded down: x u <= j c < (x + 1) u, and so for y.
    assert(0 <= x * u <= j * c < (x + 1) * u) by (nonlinear_arith)
        requires
            x == (j * c) / u,
            u > 0,
            j >= 0,
            c >= 0,
    ;
    assert(0 <= y * u <= j * s < (y + 1) * u) by (nonlinear_arith)
        requires
            y == (j * s) / u,
            u > 0,
            j >= 0,
            s >= 0,
    ;
    // The sum of the squares is not larger than the square of the remanence.
    assert((x * u) * (x * u) <= (j * c) * (j * c)) by (nonlinear_arith)
        requires
            0 <= x * u <= j * c,
    ;
    assert((y * u) * (y * u) <= (j * s) * (j * s)) by (nonlinear_arith)
        requires
            0 <= y * u <= j * s,
    ;
    assert((x * u) * (x * u) + (y * u) * (y * u) == (x * x + y * y) * (u * u))
        by (nonlinear_arith);
    assert((j * c) * (j * c) + (j * s) * (j * s) == (j * j) * (c * c + s * s))
        by (nonlinear_arith);
    assert((j * j) * (c * c + s * s) <= (j * j) * (u * u)) by (nonlinear_arith)
        requires
            c * c + s * s <= u * u,
    ;
    assert(x * x + y * y <= j * j) by (nonlinear_arith)
        requires
            (x * x + y * y) * (u * u) <= (j * j) * (u * u),
            u > 0,
    ;
    // It is smaller by little.
    assert((j * c) * (j * c) < ((x + 1) * u) * ((x + 1) * u)) by (nonlinear_arith)
        requires
            0 <= j * c < (x + 1) * u,
    ;
    assert((j * s) * (j * s) < ((y + 1) * u) * ((y + 1) * u)) by (nonlinear_arith)
        requires
            0 <= j * s < (y + 1) * u,
    ;
    assert(((x + 1) * u) * ((x + 1) * u) + ((y + 1) * u) * ((y + 1) * u) == ((x + 1) * (x + 1) + (y
        + 1) * (y + 1)) * (u * u)) by (nonlinear_arith);
    assert((j * j) * (c * c + s * s) >= (j * j) * (u * u - 4 * u - 1)) by (nonlinear_arith)
        requires
            c * c + s * s >= u * u - 4 * u - 1,
    ;
    assert((j * j) * (u * u - 4 * u - 1) >= (j * j - j) * (u * u)) by (nonlinear_arith)
        requires
            0 <= j,
            8 * j <= u,
            u > 0,
    ;
    assert((x + 1) * (x + 1) + (y + 1) * (y + 1) > j * j - j) by (nonlinear_arith)
        requires
            ((x + 1) * (x + 1) + (y + 1) * (y + 1)) * (u * u) > (j * j - j) * (u * u),
            u > 0,
    ;
    assert((x + 1) * (x + 1) + (y + 1) * (y + 1) == x * x + y * y + 2 * x + 2 * y + 2)
        by (nonlinear_arith);
    assert(x <= j && y <= j) by (nonlinear_arith)
        requires
            x * u <= j * c,
            y * u <= j * s,
            0 <= c <= u,
            0 <= s <= u,
            u > 0,
            j >= 0,
    ;
}

/// The magnitude of a component is the product of the magnitudes, rounded
/// down.
proof fn lemma_component_magnitude(jr: int, cosine: int)
    ensures
        magnitude(component(jr, cosine)) == (magnitude(jr) * magnitude(cosine)) / (UNIT as int),
{
    let j = magnitude(jr);
    let c = magnitude(cosine);
    assert(magnitude(jr * cosine) == j * c) by (nonlinear_arith)
        requires
            j == magnitude(jr),
            c == magnitude(cosine),
    ;
    assert(0int / (UNIT as int) == 0);
}

/// Half of a positive length, rounded up to a whole unit.
pub open spec fn half_extent(length: int) -> int {
    (length + 1) / 2
}

/// The component of a magnetisation of magnitude `jr` along a direction
/// whose cosine is `cosine` units of `2^-60`.
pub open spec fn component(jr: int, cosine: int) -> int {
    trunc_div(jr * cosine, UNIT as int)
}

/// The magnet that the six parameters describe.
pub open spec fn described(
    width: int,
    height: int,
    center: Units2,
    alpha: int,
    jr: int,
    phi: int,
) -> RectangleModel {
    RectangleModel {
        a: half_extent(width),
        b: half_extent(height),
        center,
        alpha,
        jr,
        phi,
        jx: component(jr, cos_sin_units(phi).0),
        jy: component(jr, cos_sin_units(phi).1),
    }
}

/// The magnet that valid parameters describe is valid: among the rest, the
/// components of its magnetisation make up its remanence but for what
/// rounding left out.
pub proof fn lemma_described_is_valid(
    width: int,
    height: int,
    center: Units2,
    alpha: int,
    jr: int,
    phi: int,
)
    requires
        0 < width && in_range(width),
        0 < height && in_range(height),
        center.in_range(),
        in_range(phi),
        magnitude(jr) <= REMANENCE_LIMIT,
    ensures
        described(width, height, center, alpha, jr, phi).valid(),
{
    let cs = cos_sin_units(phi);
    lemma_cos_sin_on_circle(phi);
    lemma_trunc_div_share(jr, cs.0, UNIT as int);
    lemma_trunc_div_share(jr, cs.1, UNIT as int);
    lemma_components_keep_remanence(jr, cs.0, cs.1);
}

/// A rectangle that is magnetised uniformly, with its sides along the axes.
///
/// A magnet is not changed once it is made, and the components of its
/// magnetisation are worked out when it is made.
#[derive(Clone, Copy, Debug, PartialEq, Eq, Structural)]
pub struct Rectangle {
    a: Fixed,
    b: Fixed,
    center: Point2,
    alpha: i32,
    jr: Fixed,
    phi: Fixed,
    jx: Fixed,
    jy: Fixed,
}

impl View for Rectangle {
    type V = RectangleModel;

    closed spec fn view(&self) -> RectangleModel {
        RectangleModel {
            a: self.a@,
            b: self.b@,
            center: self.center@,
            alpha: self.alpha as int,
            jr: self.jr@,
            phi: self.phi@,
            jx: self.jx@,
            jy: self.jy@,
        }
    }
}

impl Rectangle {
    /// Every magnet that executable code holds is valid.
    #[verifier::type_invariant]
    pub open spec fn wf(self) -> bool {
        self@.valid()
    }

    /// Describes a magnet of the given width and height, centred at
    /// `center`, with the remanence `jr` and a magnetisation that makes the
    /// angle `phi`, in degrees, with the x axis.
    ///
    /// A width or height that is not positive is refused as
    /// [`FieldError::InvalidGeometry`], a remanence beyond
    /// [`REMANENCE_LIMIT`] as [`FieldError::Domain`].
    pub fn new(width: Fixed, height: Fixed, center: Point2, alpha: i32, jr: Fixed, phi: Fixed) -> (r:
        Result<Rectangle, FieldError>)
        ensures
            width@ <= 0 || height@ <= 0 ==> r == Err::<Rectangle, FieldError>(
                FieldError::InvalidGeometry,
            ),
            width@ > 0 && height@ > 0 && magnitude(jr@) > REMANENCE_LIMIT ==> r == Err::<
                Rectangle,
                FieldError,
            >(FieldError::Domain),
            width@ > 0 && height@ > 0 && magnitude(jr@) <= REMANENCE_LIMIT ==> r is Ok
                && r.unwrap()@ == described(
                width@,
                height@,
                center@,
                alpha as int,
                jr@,
                phi@,
            ),
    {
        let w: i128 = width.wide();
        let h: i128 = height.wide();
        let j: i128 = jr.wide();
        if w <= 0 || h <= 0 {
            return Err(FieldError::InvalidGeometry);
        }
        if j > REMANENCE_LIMIT as i128 || j < -(REMANENCE_LIMIT as i128) {
            return Err(FieldError::Domain);
        }
        let cs = cos_sin(phi.raw());
        proof {
            lemma_trunc_div_share(j as int, cs.0 as int, UNIT as int);
            lemma_trunc_div_share(j as int, cs.1 as int, UNIT as int);
            lemma_cos_sin_on_circle(phi@);
            lemma_components_keep_remanence(j as int, cs.0 as int, cs.1 as int);
            use_type_invariant(&center.x);
            use_type_invariant(&center.y);
            use_type_invariant(&phi);
        }
        let a = Fixed::from_wide((w + 1) / 2).unwrap();
        let b = Fixed::from_wide((h + 1) / 2).unwrap();
        let jx = Fixed::from_wide(div_toward_zero(j * cs.0, UNIT as i128)).unwrap();
        let jy = Fixed::from_wide(div_toward_zero(j * cs.1, UNIT as i128)).unwrap();
        Ok(Rectangle { a, b, center, alpha, jr, phi, jx, jy })
    }

    /// Half of the width.
    pub fn a(&self) -> (r: Fixed)
        ensures
            r@ == self@.a,
    {
        self.a
    }

    /// Half of the height.
    pub fn b(&self) -> (r: Fixed)
        ensures
            r@ == self@.b,
    {
        self.b
    }

    /// The position of the centre.
    pub fn center(&self) -> (r: Point2)
        ensures
            r@ == self@.center,
    {
        self.center
    }

    /// The tag of the orientation.
    pub fn alpha(&self) -> (r: i32)
        ensures
            r == self@.alpha,
    {
        self.alpha
    }

    /// The remanence.
    pub fn jr(&self) -> (r: Fixed)
        ensures
            r@ == self@.jr,
    {
        self.jr
    }

    /// The angle of the magnetisation, in degrees.
    pub fn phi(&self) -> (r: Fixed)
        ensures
            r@ == self@.phi,
    {
        self.phi
    }

    /// The component of the magnetisation along x.
    pub fn jx(&self) -> (r: Fixed)
        ensures
            r@ == self@.jx,
    {
        self.jx
    }

    /// The component of the magnetisation along y.
    pub fn jy(&self) -> (r: Fixed)
        ensures
            r@ == self@.jy,
    {
        self.jy
    }
}

} // verus!
