//! Integer scalar kernel: unit and range constants, clamping, truncating
//! division and integer square root, with exact specifications.
//!
//! Physical conventions, chosen so that every quantity of interest is an
//! exactly representable integer:
//! - positions and camera origins are in nanometres,
//! - velocities in nanometres per second,
//! - accelerations in nanometres per second squared,
//! - masses in kilograms,
//! - time steps in seconds,
//! - the camera scale in nanometres per pixel.

use vstd::prelude::*;

verus! {

use vstd::arithmetic::div_mod::lemma_fundamental_div_mod;
use vstd::arithmetic::div_mod::lemma_div_nonincreasing;
use vstd::arithmetic::div_mod::lemma_div_pos_is_pos;
use vstd::arithmetic::div_mod::lemma_div_multiples_vanish;

/// Nanometres in one metre.
pub const NANOS_PER_METER: i128 = 1_000_000_000;

/// Numerator of the gravitational constant: G = 6.674e-11 m^3/(kg s^2),
/// written as GRAV_NUM / 1e14.
pub const GRAV_NUM: i128 = 6674;

/// Combined divisor used when evaluating accelerations in nanometres per
/// second squared: 1e9 * G * m / r^2 == GRAV_NUM * m / (GRAV_DIV * r^2)
/// with r^2 in square metres.
pub const GRAV_DIV: i128 = 100_000;

/// Largest admissible body mass, in kilograms (about five hundred solar
/// masses).  Bounding the mass keeps every intermediate product of the
/// force evaluation inside the i128 range.
pub const MASS_MAX: i128 = 1_000_000_000_000_000_000_000_000_000_000_000;

/// Largest magnitude a position coordinate can take, in nanometres (1e18 m).
pub const POS_LIMIT: i128 = 1_000_000_000_000_000_000_000_000_000;

/// Largest magnitude a velocity coordinate can take, in nanometres per
/// second (1e15 m/s).
pub const VEL_LIMIT: i128 = 1_000_000_000_000_000_000_000_000;

/// Largest magnitude an accumulated acceleration coordinate can take, in
/// nanometres per second squared (1e24 m/s^2).
pub const ACC_LIMIT: i128 = 1_000_000_000_000_000_000_000_000_000_000_000;

/// Largest acceleration a single pair can contribute along one axis:
/// GRAV_NUM * MASS_MAX / GRAV_DIV, reached when two bodies sit one metre
/// apart.
pub const PAIR_ACC_MAX: i128 = 66_740_000_000_000_000_000_000_000_000_000;

/// Smallest admissible time step, in seconds.
pub const DT_MIN: i128 = 1;

/// Largest admissible time step, in seconds.
pub const DT_MAX: i128 = 10_000_000_000;

/// Time step a fresh simulation starts with, in seconds.
pub const DEFAULT_DT: i128 = 10_000;

/// Smallest admissible camera scale, in nanometres per pixel (1 m/px).
pub const SCALE_MIN: i128 = 1_000_000_000;

/// Largest admissible camera scale, in nanometres per pixel (1e15 m/px).
pub const SCALE_MAX: i128 = 1_000_000_000_000_000_000_000_000;

/// Scale a fresh camera starts with, in nanometres per pixel (1e9 m/px).
pub const DEFAULT_SCALE: i128 = 1_000_000_000_000_000_000;

/// Mass the interaction layer gives a body placed with a single click, in
/// kilograms (one solar mass).
pub const DEFAULT_MASS: i128 = 1_989_000_000_000_000_000_000_000_000_000;

/// Largest magnitude accepted for a pixel coordinate or a pixel delta.
pub const PIXEL_LIMIT: i128 = 1_000_000_000;

/// Largest numerator or denominator accepted for a zoom factor.
pub const ZOOM_FACTOR_LIMIT: i128 = 1_000_000_000;

/// Squared pixel distance within which a click selects a body (a five
/// pixel radius).
pub const SELECT_RADIUS_SQ: i128 = 25;

/// Largest magnitude accepted for a world coordinate handed to the
/// view transform; covers everything `view_to_world` can produce.
pub const WORLD_LIMIT: i128 = 10_000_000_000_000_000_000_000_000_000_000_000;

/// `x` pulled into `[lo, hi]`.
pub open spec fn clamp_spec(x: int, lo: int, hi: int) -> int
    recommends
        lo <= hi,
{
    if x < lo {
        lo
    } else if x > hi {
        hi
    } else {
        x
    }
}

/// Clamping twice is clamping once: a value already pulled into the range
/// stays exactly where it is.
pub proof fn lemma_clamp_idempotent(x: int, lo: int, hi: int)
    requires
        lo <= hi,
    ensures
        clamp_spec(clamp_spec(x, lo, hi), lo, hi) == clamp_spec(x, lo, hi),
{
}

/// Clamping into a range symmetric around zero is an odd function.
pub proof fn lemma_clamp_odd(x: int, lim: int)
    requires
        lim >= 0,
    ensures
        clamp_spec(-x, -lim, lim) == -clamp_spec(x, -lim, lim),
{
}

/// Magnitude of `x`.
pub open spec fn abs_spec(x: int) -> int {
    if x < 0 {
        -x
    } else {
        x
    }
}

/// Division truncating toward zero, the semantics of Rust's `/` on signed
/// integers (spec-level `/` rounds toward negative infinity instead).
pub open spec fn div_trunc(a: int, d: int) -> int
    recommends
        d > 0,
{
    if a >= 0 {
        a / d
    } else {
        -((-a) / d)
    }
}

/// Truncating division is an odd function of the dividend.
pub proof fn lemma_div_trunc_neg(a: int, d: int)
    requires
        d > 0,
    ensures
        div_trunc(-a, d) == -div_trunc(a, d),
{
    if a == 0 {
        assert(0int / d == 0) by {
            lemma_div_multiples_vanish(0, d);
        }
    }
}

/// The magnitude of a truncated quotient is the quotient of the magnitudes,
/// and never exceeds the magnitude of the dividend.
pub proof fn lemma_div_trunc_abs(a: int, d: int)
    requires
        d > 0,
    ensures
        abs_spec(div_trunc(a, d)) == abs_spec(a) / d,
        abs_spec(div_trunc(a, d)) <= abs_spec(a),
        d * abs_spec(div_trunc(a, d)) <= abs_spec(a),
{
    let m = abs_spec(a);
    lemma_div_pos_is_pos(m, d);
    lemma_div_nonincreasing(m, d);
    lemma_fundamental_div_mod(m, d);
    assert(d * (m / d) <= m);
}

/// Multiplying by the divisor and then dividing gives the original value
/// back; this is what makes the camera's coordinate round trip exact.
pub proof fn lemma_div_trunc_mul_cancel(k: int, d: int)
    requires
        d > 0,
    ensures
        div_trunc(k * d, d) == k,
{
    if k >= 0 {
        lemma_div_multiples_vanish(k, d);
        assert(k * d >= 0 && k * d == d * k) by (nonlinear_arith)
            requires
                k >= 0,
                d > 0;
    } else {
        lemma_div_multiples_vanish(-k, d);
        assert(k * d < 0 && -(k * d) == d * (-k)) by (nonlinear_arith)
            requires
                k < 0,
                d > 0;
    }
}

/// `x` pulled into `[lo, hi]`.
pub fn clamp128(x: i128, lo: i128, hi: i128) -> (r: i128)
    requires
        lo <= hi,
    ensures
        r == clamp_spec(x as int, lo as int, hi as int),
{
    if x < lo {
        lo
    } else if x > hi {
        hi
    } else {
        x
    }
}

/// Division truncating toward zero, implemented over unsigned quotients so
/// that the rounding direction is explicit.
pub fn div_trunc128(a: i128, d: i128) -> (r: i128)
    requires
        d > 0,
        a > i128::MIN,
    ensures
        r == div_trunc(a as int, d as int),
{
    proof {
        lemma_div_trunc_abs(a as int, d as int);
    }
    if a >= 0 {
        let q: u128 = (a as u128) / (d as u128);
        q as i128
    } else {
        let n: i128 = -a;
        let q: u128 = (n as u128) / (d as u128);
        -(q as i128)
    }
}

/// Exact integer square root: the unique `r >= 0` with
/// `r * r <= n < (r + 1) * (r + 1)`, computed here by halving the argument's
/// bit width; `lemma_isqrt_bounds` establishes the characterisation.
pub open spec fn isqrt_spec(n: int) -> int
    decreases n,
{
    if n < 1 {
        0
    } else {
        let h = 2 * isqrt_spec(n / 4);
        if (h + 1) * (h + 1) <= n {
            h + 1
        } else {
            h
        }
    }
}

/// `isqrt_spec(n)` squared is at most `n`, and the next square is beyond it.
pub proof fn lemma_isqrt_bounds(n: int)
    requires
        n >= 0,
    ensures
        isqrt_spec(n) >= 0,
        isqrt_spec(n) * isqrt_spec(n) <= n,
        n < (isqrt_spec(n) + 1) * (isqrt_spec(n) + 1),
    decreases n,
{
    if n < 1 {
        assert(isqrt_spec(n) == 0);
    } else {
        lemma_isqrt_bounds(n / 4);
        let r0 = isqrt_spec(n / 4);
        let h = 2 * r0;
        lemma_fundamental_div_mod(n, 4);
        assert(h * h <= n) by (nonlinear_arith)
            requires
                r0 * r0 <= n / 4,
                n == 4 * (n / 4) + n % 4,
                n % 4 >= 0,
                h == 2 * r0;
        assert(n < (h + 2) * (h + 2)) by (nonlinear_arith)
            requires
                n / 4 < (r0 + 1) * (r0 + 1),
                n == 4 * (n / 4) + n % 4,
                n % 4 < 4,
                h == 2 * r0;
        if (h + 1) * (h + 1) <= n {
            assert(isqrt_spec(n) == h + 1);
        } else {
            assert(isqrt_spec(n) == h);
        }
    }
}

/// Any `r` satisfying the square-root characterisation is `isqrt_spec(n)`.
pub proof fn lemma_isqrt_unique(n: int, r: int)
    requires
        n >= 0,
        r >= 0,
        r * r <= n,
        n < (r + 1) * (r + 1),
    ensures
        r == isqrt_spec(n),
{
    lemma_isqrt_bounds(n);
    let s = isqrt_spec(n);
    if r < s {
        assert(false) by (nonlinear_arith)
            requires
                r >= 0,
                s >= 0,
                r < s,
                n < (r + 1) * (r + 1),
                s * s <= n;
    }
    if s < r {
        assert(false) by (nonlinear_arith)
            requires
                r >= 0,
                s >= 0,
                s < r,
                n < (s + 1) * (s + 1),
                r * r <= n;
    }
}

/// The square root of `n` never exceeds `n` itself.
pub proof fn lemma_isqrt_le(n: int)
    requires
        n >= 0,
    ensures
        0 <= isqrt_spec(n) <= n,
{
    lemma_isqrt_bounds(n);
    let s = isqrt_spec(n);
    assert(s <= n) by (nonlinear_arith)
        requires
            s >= 0,
            s * s <= n;
}

/// A positive number has a positive square root.
pub proof fn lemma_isqrt_pos(n: int)
    requires
        n >= 1,
    ensures
        isqrt_spec(n) >= 1,
{
    lemma_isqrt_bounds(n);
    let s = isqrt_spec(n);
    assert(s >= 1) by (nonlinear_arith)
        requires
            s >= 0,
            n >= 1,
            n < (s + 1) * (s + 1);
}

/// A truncated quotient with a positive divisor keeps the dividend's sign.
pub proof fn lemma_div_trunc_sign(a: int, d: int)
    requires
        d > 0,
    ensures
        a >= 0 ==> div_trunc(a, d) >= 0,
        a <= 0 ==> div_trunc(a, d) <= 0,
{
    if a >= 0 {
        lemma_div_pos_is_pos(a, d);
    } else {
        lemma_div_pos_is_pos(-a, d);
    }
}

/// Any value whose square is at most `n` has magnitude at most
/// `isqrt_spec(n)`.
pub proof fn lemma_isqrt_dominates(x: int, n: int)
    requires
        x * x <= n,
    ensures
        abs_spec(x) <= isqrt_spec(n),
{
    assert(n >= 0) by (nonlinear_arith)
        requires
            x * x <= n;
    lemma_isqrt_bounds(n);
    let s = isqrt_spec(n);
    let m = abs_spec(x);
    assert(m * m == x * x) by (nonlinear_arith)
        requires
            m == x || m == -x;
    if m > s {
        assert(false) by (nonlinear_arith)
            requires
                m >= s + 1,
                s >= 0,
                m * m <= n,
                n < (s + 1) * (s + 1);
    }
}

/// Exact integer square root by binary search.
pub fn isqrt128(n: i128) -> (r: i128)
    requires
        n >= 0,
    ensures
        r == isqrt_spec(n as int),
        r >= 0,
        r * r <= n,
        n < (r + 1) * (r + 1),
{
    let nn: u128 = n as u128;
    let mut lo: u128 = 0;
    let mut hi: u128 = 18_446_744_073_709_551_616;
    proof {
        assert((hi as int) * (hi as int) > nn as int) by (nonlinear_arith)
            requires
                hi == 18_446_744_073_709_551_616u128,
                nn as int <= i128::MAX as int;
    }
    while lo + 1 < hi
        invariant
            lo < hi,
            hi <= 18_446_744_073_709_551_616,
            (lo as int) * (lo as int) <= nn as int,
            (nn as int) < ((hi as int) * (hi as int)),
            nn == n as int,
        decreases hi - lo,
    {
        let mid: u128 = lo + (hi - lo) / 2;
        proof {
            assert(lo < mid < hi);
            assert((mid as int) * (mid as int) < 0x100000000000000000000000000000000int)
                by (nonlinear_arith)
                requires
                    mid < 18_446_744_073_709_551_616u128;
        }
        if mid * mid <= nn {
            lo = mid;
        } else {
            hi = mid;
        }
    }
    let r: i128 = lo as i128;
    proof {
        assert(hi == lo + 1);
        assert(r * r <= n && n < (r + 1) * (r + 1));
        lemma_isqrt_unique(n as int, r as int);
    }
    r
}

} // verus!
