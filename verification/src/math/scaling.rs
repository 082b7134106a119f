//! Bringing a pair of magnitudes to a fixed working precision.
//!
//! The elementary functions iterate on 61-bit numbers. A pair `(lo, hi)` is
//! scaled by a common power of two until `hi` lies in `[2^60, 2^61)`: doubled
//! while it is too small, which is exact, halved while it is too large, which
//! drops the lowest bits.

use vstd::prelude::*;
use vstd::arithmetic::div_mod::lemma_fundamental_div_mod_converse;
use vstd::arithmetic::power2::{pow2, lemma_pow2_unfold, lemma_pow2_adds, lemma2_to64, lemma2_to64_rest};

verus! {

/// `2^60`: the value 1.0 at the working precision.
pub const UNIT: u128 = 0x1000_0000_0000_0000;

/// `2^61`: the bound just above every scaled `hi`.
pub const UNIT_TWICE: u128 = 0x2000_0000_0000_0000;

/// `2^127`: the bound just above every magnitude that can be scaled.
pub const SCALABLE_LIMIT: u128 = 0x8000_0000_0000_0000_0000_0000_0000_0000;

/// A pair of magnitudes that came from a given pair by doubling or halving,
/// with the power of two by which it must be multiplied to give that pair
/// back: negative after doubling, positive after halving.
pub struct Scaled {
    pub lo: int,
    pub hi: int,
    pub exp: int,
}

/// Doubles the pair until `hi` is at least `2^60`.
pub open spec fn scaled_up(s: Scaled) -> Scaled
    decreases
            (if s.hi < UNIT {
                UNIT - s.hi
            } else {
                0
            }),
{
    if 0 < s.hi < UNIT {
        scaled_up(Scaled { lo: 2 * s.lo, hi: 2 * s.hi, exp: s.exp - 1 })
    } else {
        s
    }
}

/// Halves the pair until `hi` is below `2^61`.
pub open spec fn scaled_down(s: Scaled) -> Scaled
    decreases s.hi,
{
    if s.hi >= UNIT_TWICE {
        scaled_down(Scaled { lo: s.lo / 2, hi: s.hi / 2, exp: s.exp + 1 })
    } else {
        s
    }
}

/// The pair `(lo, hi)` at the working precision, with the power of two by
/// which it must be multiplied to give `(lo, hi)` back, up to the bits that
/// halving dropped.
pub open spec fn scaled(lo: int, hi: int) -> Scaled {
    scaled_down(scaled_up(Scaled { lo, hi, exp: 0 }))
}

/// Doubling leaves the smaller magnitude the smaller, and ends with the
/// larger at or above `2^60`; a larger one that was below ends below
/// `2^61`.
proof fn lemma_scaled_up_range(s: Scaled)
    requires
        0 <= s.lo <= s.hi,
        0 < s.hi,
    ensures
        0 <= scaled_up(s).lo <= scaled_up(s).hi,
        UNIT <= scaled_up(s).hi,
        s.hi < UNIT_TWICE ==> scaled_up(s).hi < UNIT_TWICE,
    decreases
            (if s.hi < UNIT {
                UNIT - s.hi
            } else {
                0
            }),
{
    if s.hi < UNIT {
        lemma_scaled_up_range(Scaled { lo: 2 * s.lo, hi: 2 * s.hi, exp: s.exp - 1 });
    }
}

/// Halving leaves the smaller magnitude the smaller, and ends with the
/// larger from `2^60` to below `2^61`.
proof fn lemma_scaled_down_range(s: Scaled)
    requires
        0 <= s.lo <= s.hi,
        UNIT <= s.hi,
    ensures
        0 <= scaled_down(s).lo <= scaled_down(s).hi,
        UNIT <= scaled_down(s).hi < UNIT_TWICE,
    decreases s.hi,
{
    if s.hi >= UNIT_TWICE {
        lemma_scaled_down_range(Scaled { lo: s.lo / 2, hi: s.hi / 2, exp: s.exp + 1 });
    }
}

/// A scaled pair has its larger magnitude from `2^60` to below `2^61`, and
/// its smaller magnitude is still the smaller.
pub proof fn lemma_scaled_range(lo: int, hi: int)
    requires
        0 <= lo <= hi,
        0 < hi,
    ensures
        0 <= scaled(lo, hi).lo <= scaled(lo, hi).hi,
        UNIT <= scaled(lo, hi).hi < UNIT_TWICE,
{
    let start = Scaled { lo, hi, exp: 0 };
    lemma_scaled_up_range(start);
    lemma_scaled_down_range(scaled_up(start));
}

/// A pair at the working precision, as executable code holds it.
pub struct ScaledPair {
    pub lo: u128,
    pub hi: u128,
    pub exp: i32,
}

impl View for ScaledPair {
    type V = Scaled;

    open spec fn view(&self) -> Scaled {
        Scaled { lo: self.lo as int, hi: self.hi as int, exp: self.exp as int }
    }
}

/// Scales `(lo, hi)` to the working precision.
pub fn scale(lo: u128, hi: u128) -> (r: ScaledPair)
    requires
        0 < hi < SCALABLE_LIMIT,
        lo <= hi,
    ensures
        r@ == scaled(lo as int, hi as int),
        UNIT <= r.hi < UNIT_TWICE,
        r.lo <= r.hi,
        -60 <= r.exp <= 66,
{
    let mut l: u128 = lo;
    let mut h: u128 = hi;
    let mut e: i32 = 0;
    proof {
        lemma2_to64();
    }
    while h < UNIT
        invariant
            0 < h < SCALABLE_LIMIT,
            l <= h,
            -60 <= e <= 0,
            e < 0 ==> h < UNIT_TWICE,
            h >= pow2((-e) as nat),
            scaled_up(Scaled { lo: l as int, hi: h as int, exp: e as int }) == scaled_up(
                Scaled { lo: lo as int, hi: hi as int, exp: 0 },
            ),
        decreases
                (if h < UNIT {
                    UNIT - h
                } else {
                    0
                }),
    {
        proof {
            lemma_pow2_unfold((1 - e) as nat);
            if e == -60 {
                lemma2_to64_rest();
            }
        }
        l = l * 2;
        h = h * 2;
        e = e - 1;
    }
    let ghost up = Scaled { lo: l as int, hi: h as int, exp: e as int };
    assert(up == scaled_up(Scaled { lo: lo as int, hi: hi as int, exp: 0 }));
    proof {
        lemma2_to64_rest();
        lemma_pow2_adds(64, 63);
    }
    while h >= UNIT_TWICE
        invariant
            0 < h < SCALABLE_LIMIT,
            UNIT <= h,
            l <= h,
            -60 <= e <= 66,
            e < 0 ==> h < UNIT_TWICE,
            e >= 0 ==> h < pow2((127 - e) as nat),
            scaled_down(Scaled { lo: l as int, hi: h as int, exp: e as int }) == scaled_down(up),
        decreases h,
    {
        proof {
            lemma_pow2_unfold((127 - e) as nat);
            if e == 66 {
                lemma2_to64_rest();
            }
        }
        l = l / 2;
        h = h / 2;
        e = e + 1;
    }
    ScaledPair { lo: l, hi: h, exp: e }
}

/// `2^126`: the bound just above every denominator of a fraction.
pub const DENOMINATOR_LIMIT: u128 = 0x4000_0000_0000_0000_0000_0000_0000_0000;

/// The fraction `num / den` at the working precision, rounded down.
pub open spec fn fraction_units(num: int, den: int) -> int {
    (num * UNIT) / den
}

/// The fraction `num / den` of a part to a whole, in units of `2^-60`,
/// rounded down: found bit by bit, by doubling what is left of the part and
/// taking the whole out of it where it fits.
pub fn fraction(num: u128, den: u128) -> (q: u128)
    requires
        num <= den,
        0 < den < DENOMINATOR_LIMIT,
    ensures
        q == fraction_units(num as int, den as int),
        q <= UNIT,
{
    if num == den {
        proof {
            lemma_fundamental_div_mod_converse(num * UNIT, den as int, UNIT as int, 0);
        }
        return UNIT;
    }
    let mut q: u128 = 0;
    let mut rest: u128 = num;
    let mut i: usize = 0;
    proof {
        lemma2_to64();
    }
    while i < 60
        invariant
            i <= 60,
            rest < den < DENOMINATOR_LIMIT,
            q < pow2(i as nat),
            q * den + rest == num * pow2(i as nat),
        decreases 60 - i,
    {
        proof {
            lemma_pow2_unfold((i + 1) as nat);
            lemma2_to64_rest();
            vstd::arithmetic::power2::lemma_pow2_strictly_increases(i as nat, 60);
        }
        let ghost q0 = q as int;
        let ghost r0 = rest as int;
        let doubled: u128 = rest * 2;
        if doubled >= den {
            rest = doubled - den;
            q = q * 2 + 1;
        } else {
            rest = doubled;
            q = q * 2;
        }
        assert(q * den + rest == 2 * (q0 * den + r0)) by (nonlinear_arith)
            requires
                (q == 2 * q0 + 1 && rest == 2 * r0 - den) || (q == 2 * q0 && rest == 2 * r0),
        ;
        assert(2 * (num * pow2(i as nat)) == num * pow2((i + 1) as nat)) by (nonlinear_arith)
            requires
                pow2((i + 1) as nat) == 2 * pow2(i as nat),
        ;
        i = i + 1;
    }
    proof {
        lemma2_to64_rest();
        assert(num * UNIT == q * den + rest);
        lemma_fundamental_div_mod_converse(num * UNIT, den as int, q as int, rest as int);
    }
    q
}

} // verus!
