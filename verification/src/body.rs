//! A point mass and the gravitational acceleration it feels toward another.

use vstd::prelude::*;

verus! {

use crate::num::{
    abs_spec, div_trunc, isqrt_spec, GRAV_DIV, GRAV_NUM, MASS_MAX, NANOS_PER_METER, PAIR_ACC_MAX,
    POS_LIMIT, VEL_LIMIT,
};
use crate::num::{div_trunc128, isqrt128};
use crate::num::{
    lemma_div_trunc_abs, lemma_div_trunc_neg, lemma_div_trunc_sign, lemma_isqrt_dominates,
    lemma_isqrt_le, lemma_isqrt_pos,
};
use crate::vec2::Vec2;
use vstd::arithmetic::div_mod::lemma_div_is_ordered;
use vstd::arithmetic::div_mod::lemma_div_of0;
use vstd::arithmetic::div_mod::lemma_div_nonincreasing;
use vstd::arithmetic::div_mod::lemma_div_pos_is_pos;
use vstd::arithmetic::div_mod::lemma_fundamental_div_mod;

/// A colour, one byte per channel, presentation only.
#[derive(Clone, Copy, Debug, PartialEq, Eq, Structural)]
pub struct Rgba {
    pub r: u8,
    pub g: u8,
    pub b: u8,
    pub a: u8,
}

impl Rgba {
    /// The colour newly added bodies get: opaque white.
    pub fn white() -> (c: Rgba)
        ensures
            c == (Rgba { r: 255u8, g: 255u8, b: 255u8, a: 255u8 }),
    {
        Rgba { r: 255, g: 255, b: 255, a: 255 }
    }
}

/// A point mass: kilograms, a world position in nanometres and a velocity in
/// nanometres per second, plus a display colour.  Net accelerations are not
/// stored on the body; each step computes them afresh from the positions, so
/// no stale scratch state can leak from one step into the next.
#[derive(Clone, Copy, Debug, PartialEq, Eq, Structural)]
pub struct Body {
    pub mass: i128,
    pub pos: Vec2,
    pub vel: Vec2,
    pub color: Rgba,
}

/// The gravitational acceleration, in nanometres per second squared, felt by
/// a body displaced from an attractor of mass `m` by `(dx_nm, dy_nm)`
/// nanometres (the displacement points from the attracted body to the
/// attractor).  The displacement is first truncated to whole metres; two
/// bodies within a metre of each other count as coincident and attract not
/// at all, the guard that keeps the force law total.  With `r2` the squared
/// distance in metres, the magnitude is `GRAV_NUM * m / (GRAV_DIV * r2)`,
/// exactly `1e9 * G * m / r2` with `G = 6.674e-11`, and the direction is the
/// displacement divided by its length, every division truncating toward
/// zero.
pub open spec fn accel_toward_spec(m: int, dx_nm: int, dy_nm: int) -> (int, int)
    recommends
        m >= 0,
{
    let dx = div_trunc(dx_nm, NANOS_PER_METER as int);
    let dy = div_trunc(dy_nm, NANOS_PER_METER as int);
    let r2 = dx * dx + dy * dy;
    if r2 == 0 {
        (0, 0)
    } else {
        let r = isqrt_spec(r2);
        let mag = (GRAV_NUM * m / (GRAV_DIV as int)) / r2;
        (div_trunc(mag * dx, r), div_trunc(mag * dy, r))
    }
}

/// Both components of a pairwise acceleration stay within `PAIR_ACC_MAX`.
pub proof fn lemma_accel_bounds(m: int, dx_nm: int, dy_nm: int)
    requires
        0 <= m <= MASS_MAX,
        abs_spec(dx_nm) <= 2 * POS_LIMIT,
        abs_spec(dy_nm) <= 2 * POS_LIMIT,
    ensures
        abs_spec(accel_toward_spec(m, dx_nm, dy_nm).0) <= PAIR_ACC_MAX,
        abs_spec(accel_toward_spec(m, dx_nm, dy_nm).1) <= PAIR_ACC_MAX,
{
    let nm = NANOS_PER_METER as int;
    let dx = div_trunc(dx_nm, nm);
    let dy = div_trunc(dy_nm, nm);
    let r2 = dx * dx + dy * dy;
    assert(r2 >= 0) by (nonlinear_arith)
        requires
            r2 == dx * dx + dy * dy;
    if r2 != 0 {
        let r = isqrt_spec(r2);
        lemma_isqrt_pos(r2);
        let t = GRAV_NUM * m;
        let t1 = t / (GRAV_DIV as int);
        let mag = t1 / r2;
        assert(t >= 0) by (nonlinear_arith)
            requires
                m >= 0,
                t == GRAV_NUM * m;
        lemma_div_pos_is_pos(t, GRAV_DIV as int);
        assert(t <= GRAV_NUM * MASS_MAX) by (nonlinear_arith)
            requires
                m <= MASS_MAX,
                t == GRAV_NUM * m;
        lemma_div_is_ordered(t, GRAV_NUM * MASS_MAX, GRAV_DIV as int);
        assert(t1 <= PAIR_ACC_MAX);
        lemma_div_pos_is_pos(t1, r2);
        lemma_div_nonincreasing(t1, r2);
        lemma_fundamental_div_mod(t1, r2);
        assert(mag * r2 <= t1) by (nonlinear_arith)
            requires
                t1 == r2 * mag + t1 % r2,
                t1 % r2 >= 0,
                mag == t1 / r2;
        assert(dx * dx <= r2 && dy * dy <= r2) by (nonlinear_arith)
            requires
                r2 == dx * dx + dy * dy;
        lemma_isqrt_dominates(dx, r2);
        lemma_isqrt_dominates(dy, r2);
        lemma_isqrt_le(r2);
        assert(abs_spec(mag * dx) <= t1 && abs_spec(mag * dy) <= t1) by (nonlinear_arith)
            requires
                mag >= 0,
                mag * r2 <= t1,
                0 <= r <= r2,
                abs_spec(dx) <= r,
                abs_spec(dy) <= r,
                t1 >= 0;
        lemma_div_trunc_abs(mag * dx, r);
        lemma_div_trunc_abs(mag * dy, r);
    }
}

/// Negating the displacement negates the acceleration exactly: the force a
/// body feels toward an attractor is the mirror image of what it would feel
/// from the opposite side.
pub proof fn lemma_accel_antisymmetric(m: int, dx_nm: int, dy_nm: int)
    ensures
        accel_toward_spec(m, -dx_nm, -dy_nm).0 == -accel_toward_spec(m, dx_nm, dy_nm).0,
        accel_toward_spec(m, -dx_nm, -dy_nm).1 == -accel_toward_spec(m, dx_nm, dy_nm).1,
{
    let nm = NANOS_PER_METER as int;
    lemma_div_trunc_neg(dx_nm, nm);
    lemma_div_trunc_neg(dy_nm, nm);
    let dx = div_trunc(dx_nm, nm);
    let dy = div_trunc(dy_nm, nm);
    assert((-dx) * (-dx) == dx * dx && (-dy) * (-dy) == dy * dy) by (nonlinear_arith);
    let r2 = dx * dx + dy * dy;
    assert(r2 >= 0) by (nonlinear_arith)
        requires
            r2 == dx * dx + dy * dy;
    if r2 != 0 {
        let r = isqrt_spec(r2);
        lemma_isqrt_pos(r2);
        let mag = (GRAV_NUM * m / (GRAV_DIV as int)) / r2;
        assert(mag * (-dx) == -(mag * dx) && mag * (-dy) == -(mag * dy)) by (nonlinear_arith);
        lemma_div_trunc_neg(mag * dx, r);
        lemma_div_trunc_neg(mag * dy, r);
    }
}

/// Each acceleration component carries the sign of the matching displacement
/// component (or is zero): the pull points from the attracted body toward
/// the attractor.
pub proof fn lemma_accel_sign(m: int, dx_nm: int, dy_nm: int)
    requires
        m >= 0,
    ensures
        dx_nm >= 0 ==> accel_toward_spec(m, dx_nm, dy_nm).0 >= 0,
        dx_nm <= 0 ==> accel_toward_spec(m, dx_nm, dy_nm).0 <= 0,
        dy_nm >= 0 ==> accel_toward_spec(m, dx_nm, dy_nm).1 >= 0,
        dy_nm <= 0 ==> accel_toward_spec(m, dx_nm, dy_nm).1 <= 0,
{
    let nm = NANOS_PER_METER as int;
    lemma_div_trunc_abs(dx_nm, nm);
    lemma_div_trunc_abs(dy_nm, nm);
    let dx = div_trunc(dx_nm, nm);
    let dy = div_trunc(dy_nm, nm);
    assert(dx_nm >= 0 ==> dx >= 0);
    assert(dx_nm <= 0 ==> dx <= 0);
    assert(dy_nm >= 0 ==> dy >= 0);
    assert(dy_nm <= 0 ==> dy <= 0);
    let r2 = dx * dx + dy * dy;
    assert(r2 >= 0) by (nonlinear_arith)
        requires
            r2 == dx * dx + dy * dy;
    if r2 != 0 {
        let r = isqrt_spec(r2);
        lemma_isqrt_pos(r2);
        let t = GRAV_NUM * m;
        assert(t >= 0) by (nonlinear_arith)
            requires
                m >= 0,
                t == GRAV_NUM * m;
        lemma_div_pos_is_pos(t, GRAV_DIV as int);
        lemma_div_pos_is_pos(t / (GRAV_DIV as int), r2);
        let mag = (t / (GRAV_DIV as int)) / r2;
        assert(dx >= 0 ==> mag * dx >= 0) by (nonlinear_arith)
            requires
                mag >= 0;
        assert(dx <= 0 ==> mag * dx <= 0) by (nonlinear_arith)
            requires
                mag >= 0;
        assert(dy >= 0 ==> mag * dy >= 0) by (nonlinear_arith)
            requires
                mag >= 0;
        assert(dy <= 0 ==> mag * dy <= 0) by (nonlinear_arith)
            requires
                mag >= 0;
        lemma_div_trunc_sign(mag * dx, r);
        lemma_div_trunc_sign(mag * dy, r);
    }
}

/// Newton's third law for equal masses, exactly: two bodies of the same mass
/// accelerate toward each other with component-wise opposite values.
pub proof fn lemma_accel_newton_equal_mass(a: Body, b: Body)
    requires
        a.mass == b.mass,
    ensures
        accel_toward_spec(b.mass as int, b.pos.x - a.pos.x, b.pos.y - a.pos.y).0
            == -accel_toward_spec(a.mass as int, a.pos.x - b.pos.x, a.pos.y - b.pos.y).0,
        accel_toward_spec(b.mass as int, b.pos.x - a.pos.x, b.pos.y - a.pos.y).1
            == -accel_toward_spec(a.mass as int, a.pos.x - b.pos.x, a.pos.y - b.pos.y).1,
{
    lemma_accel_antisymmetric(a.mass as int, a.pos.x - b.pos.x, a.pos.y - b.pos.y);
}

/// For any two masses, the two pulls of a pair never share a strict sign on
/// any axis: they point in opposite directions, component by component.
pub proof fn lemma_accel_opposite(a: Body, b: Body)
    requires
        a.mass >= 0,
        b.mass >= 0,
    ensures
        accel_toward_spec(b.mass as int, b.pos.x - a.pos.x, b.pos.y - a.pos.y).0
            * accel_toward_spec(a.mass as int, a.pos.x - b.pos.x, a.pos.y - b.pos.y).0 <= 0,
        accel_toward_spec(b.mass as int, b.pos.x - a.pos.x, b.pos.y - a.pos.y).1
            * accel_toward_spec(a.mass as int, a.pos.x - b.pos.x, a.pos.y - b.pos.y).1 <= 0,
{
    let dx = b.pos.x - a.pos.x;
    let dy = b.pos.y - a.pos.y;
    lemma_accel_sign(b.mass as int, dx, dy);
    lemma_accel_sign(a.mass as int, -dx, -dy);
    let pa = accel_toward_spec(b.mass as int, dx, dy);
    let pb = accel_toward_spec(a.mass as int, -dx, -dy);
    assert(pa.0 * pb.0 <= 0) by (nonlinear_arith)
        requires
            (pa.0 >= 0 && pb.0 <= 0) || (pa.0 <= 0 && pb.0 >= 0);
    assert(pa.1 * pb.1 <= 0) by (nonlinear_arith)
        requires
            (pa.1 >= 0 && pb.1 <= 0) || (pa.1 <= 0 && pb.1 >= 0);
}

impl Body {
    /// Mass and both coordinates sit inside the simulator's working ranges.
    pub open spec fn wf(self) -> bool {
        &&& 0 <= self.mass <= MASS_MAX
        &&& self.pos.within(POS_LIMIT as int)
        &&& self.vel.within(VEL_LIMIT as int)
    }

    /// The gravitational acceleration this body feels toward `other`, in
    /// nanometres per second squared; the zero vector when the two bodies
    /// are coincident (to the metre), so no input can divide by zero.
    pub fn accel_towards(&self, other: &Body) -> (acc: Vec2)
        requires
            self.wf(),
            other.wf(),
        ensures
            acc.x == accel_toward_spec(
                other.mass as int,
                other.pos.x - self.pos.x,
                other.pos.y - self.pos.y,
            ).0,
            acc.y == accel_toward_spec(
                other.mass as int,
                other.pos.x - self.pos.x,
                other.pos.y - self.pos.y,
            ).1,
            abs_spec(acc.x as int) <= PAIR_ACC_MAX,
            abs_spec(acc.y as int) <= PAIR_ACC_MAX,
            self.pos == other.pos ==> acc.x == 0 && acc.y == 0,
    {
        let dx_nm: i128 = other.pos.x - self.pos.x;
        let dy_nm: i128 = other.pos.y - self.pos.y;
        proof {
            lemma_accel_bounds(other.mass as int, dx_nm as int, dy_nm as int);
            lemma_div_trunc_abs(dx_nm as int, NANOS_PER_METER as int);
            lemma_div_trunc_abs(dy_nm as int, NANOS_PER_METER as int);
            lemma_div_is_ordered(
                abs_spec(dx_nm as int),
                2 * POS_LIMIT as int,
                NANOS_PER_METER as int,
            );
            lemma_div_is_ordered(
                abs_spec(dy_nm as int),
                2 * POS_LIMIT as int,
                NANOS_PER_METER as int,
            );
        }
        let dx: i128 = div_trunc128(dx_nm, NANOS_PER_METER);
        let dy: i128 = div_trunc128(dy_nm, NANOS_PER_METER);
        proof {
            assert(dx * dx <= 8_000_000_000_000_000_000_000_000_000_000_000_000i128 && dy * dy
                <= 8_000_000_000_000_000_000_000_000_000_000_000_000i128 && dx * dx >= 0 && dy * dy
                >= 0) by (nonlinear_arith)
                requires
                    abs_spec(dx as int) <= 2_000_000_000_000_000_000,
                    abs_spec(dy as int) <= 2_000_000_000_000_000_000;
        }
        let r2: i128 = dx * dx + dy * dy;
        if r2 == 0 {
            return Vec2::zero();
        }
        let r: i128 = isqrt128(r2);
        let t: i128 = GRAV_NUM * other.mass;
        let t1: i128 = div_trunc128(t, GRAV_DIV);
        let mag: i128 = div_trunc128(t1, r2);
        proof {
            let t1i = t1 as int;
            let r2i = r2 as int;
            assert(t >= 0) by (nonlinear_arith)
                requires
                    other.mass >= 0,
                    t == GRAV_NUM * other.mass;
            lemma_div_pos_is_pos(t as int, GRAV_DIV as int);
            lemma_div_pos_is_pos(t1i, r2i);
            lemma_div_nonincreasing(t1i, r2i);
            lemma_fundamental_div_mod(t1i, r2i);
            assert((mag as int) * r2i <= t1i) by (nonlinear_arith)
                requires
                    t1i == r2i * (mag as int) + t1i % r2i,
                    t1i % r2i >= 0,
                    mag == t1i / r2i;
            assert((dx as int) * (dx as int) <= r2i && (dy as int) * (dy as int) <= r2i)
                by (nonlinear_arith)
                requires
                    r2i == dx * dx + dy * dy;
            lemma_isqrt_dominates(dx as int, r2i);
            lemma_isqrt_dominates(dy as int, r2i);
            lemma_isqrt_le(r2i);
            assert(abs_spec((mag as int) * (dx as int)) <= t1i && abs_spec(
                (mag as int) * (dy as int),
            ) <= t1i) by (nonlinear_arith)
                requires
                    mag >= 0,
                    (mag as int) * (r2 as int) <= t1i,
                    0 <= r <= r2,
                    abs_spec(dx as int) <= r,
                    abs_spec(dy as int) <= r,
                    t1i >= 0;
        }
        let px: i128 = mag * dx;
        let py: i128 = mag * dy;
        let ax: i128 = div_trunc128(px, r);
        let ay: i128 = div_trunc128(py, r);
        proof {
            lemma_div_trunc_abs(px as int, r as int);
            lemma_div_trunc_abs(py as int, r as int);
            if self.pos == other.pos {
                lemma_div_of0(NANOS_PER_METER as int);
                assert(dx == 0 && dy == 0);
                assert(r2 == 0) by (nonlinear_arith)
                    requires
                        dx == 0,
                        dy == 0,
                        r2 == dx * dx + dy * dy;
            }
        }
        Vec2 { x: ax, y: ay }
    }
}

} // verus!
