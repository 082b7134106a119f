//! Constants of the shift-and-add iterations, in units of `2^-60`.

use vstd::prelude::*;

verus! {

/// The number of steps that each iteration takes, and the last index of the
/// tables.
pub const STEPS: usize = 60;

/// A quarter of pi, rounded to the nearest unit. The other multiples of pi are
/// whole multiples of it, so that sums of right angles are exact.
pub const QUARTER_PI: i128 = 905502432259640355;

/// Half of pi.
pub const HALF_PI: i128 = 2 * QUARTER_PI;

/// Pi.
pub const PI: i128 = 4 * QUARTER_PI;

/// Twice pi.
pub const TWO_PI: i128 = 8 * QUARTER_PI;

/// Four times pi.
pub const FOUR_PI: i128 = 16 * QUARTER_PI;

/// The natural logarithm of 2, rounded to the nearest unit.
pub const LN_2: i128 = 799144290325165979;

/// `arctan(2^-i)` for `i` from 0 to 60, rounded to the nearest unit.
pub const ARCTAN_POW2: [i128; 61] = [
    905502432259640355,
    534549298976576474,
    282441168888798124,
    143371547418228444,
    71963988336308046,
    36017075762092179,
    18012932708689205,
    9007016009513623,
    4503576721087964,
    2251796950380271,
    1125899548928887,
    562949908682076,
    281474971118251,
    140737487656277,
    70368744090283,
    35184372077909,
    17592186043051,
    8796093022037,
    4398046511083,
    2199023255549,
    1099511627776,
    549755813888,
    274877906944,
    137438953472,
    68719476736,
    34359738368,
    17179869184,
    8589934592,
    4294967296,
    2147483648,
    1073741824,
    536870912,
    268435456,
    134217728,
    67108864,
    33554432,
    16777216,
    8388608,
    4194304,
    2097152,
    1048576,
    524288,
    262144,
    131072,
    65536,
    32768,
    16384,
    8192,
    4096,
    2048,
    1024,
    512,
    256,
    128,
    64,
    32,
    16,
    8,
    4,
    2,
    1,
];

/// `ln(1 + 2^-i)` for `i` from 0 to 60, rounded to the nearest unit.
pub const LN_ONE_PLUS_POW2: [i128; 61] = [
    799144290325165979,
    467469442505642749,
    257266998924493878,
    135794594686119519,
    69895430200825139,
    35477307009321985,
    17875110068750280,
    8972197067515785,
    4494826373940704,
    2249603649553466,
    1125350508680738,
    562812559190705,
    281440622563670,
    140728899119723,
    70366596781393,
    35183835228842,
    17592051828053,
    8796059467947,
    4398038122517,
    2199021158403,
    1099511103488,
    549755682816,
    274877874176,
    137438945280,
    68719474688,
    34359737856,
    17179869056,
    8589934560,
    4294967288,
    2147483646,
    1073741824,
    536870912,
    268435456,
    134217728,
    67108864,
    33554432,
    16777216,
    8388608,
    4194304,
    2097152,
    1048576,
    524288,
    262144,
    131072,
    65536,
    32768,
    16384,
    8192,
    4096,
    2048,
    1024,
    512,
    256,
    128,
    64,
    32,
    16,
    8,
    4,
    2,
    1,
];

/// `arctan(2^-i)` in units of `2^-60`; 0 beyond the table.
pub open spec fn arctan_pow2(i: int) -> int {
    if 0 <= i <= STEPS {
        ARCTAN_POW2[i] as int
    } else {
        0
    }
}

/// `ln(1 + 2^-i)` in units of `2^-60`; 0 beyond the table.
pub open spec fn ln_one_plus_pow2(i: int) -> int {
    if 0 <= i <= STEPS {
        LN_ONE_PLUS_POW2[i] as int
    } else {
        0
    }
}

/// Looks `arctan(2^-i)` up.
pub fn arctan_entry(i: usize) -> (r: i128)
    requires
        i <= STEPS,
    ensures
        r == arctan_pow2(i as int),
        0 < r <= 0x1000_0000_0000_0000,
{
    ARCTAN_POW2[i]
}

/// Looks `ln(1 + 2^-i)` up.
pub fn ln_entry(i: usize) -> (r: i128)
    requires
        i <= STEPS,
    ensures
        r == ln_one_plus_pow2(i as int),
        0 < r <= 0x1000_0000_0000_0000,
{
    LN_ONE_PLUS_POW2[i]
}

/// Each arctangent of the table is at most twice the next: a turn that
/// went too far is made up for by the turns that follow.
pub proof fn lemma_arctan_halves_slowly(i: int)
    requires
        0 <= i < STEPS,
    ensures
        0 < arctan_pow2(i + 1) <= arctan_pow2(i) <= 2 * arctan_pow2(i + 1),
{
}

} // verus!
