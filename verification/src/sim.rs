//! The simulation: the ordered body collection, the time step with its
//! direction and pause flag, and the discrete integration step.

use vstd::prelude::*;

verus! {

use crate::body::{accel_toward_spec, lemma_accel_newton_equal_mass, Body, Rgba};
use crate::camera::Camera;
use crate::num::{
    clamp_spec, ACC_LIMIT, DT_MAX, DT_MIN, DEFAULT_DT, MASS_MAX, PIXEL_LIMIT, POS_LIMIT,
    SELECT_RADIUS_SQ, VEL_LIMIT, WORLD_LIMIT,
};
use crate::num::{abs_spec, div_trunc, SCALE_MIN};
use crate::num::{clamp128, lemma_clamp_odd, lemma_div_trunc_abs};
use crate::vec2::Vec2;
use vstd::arithmetic::div_mod::lemma_div_is_ordered;
use vstd::arithmetic::div_mod::lemma_div_is_ordered_by_denominator;

/// Why a simulation call was refused.  No condition here is fatal: the
/// state is left exactly as it was and the caller decides what to do.
#[derive(Clone, Copy, Debug, PartialEq, Eq, Structural)]
pub enum SimError {
    /// The index names no body in the current sequence.
    IndexOutOfRange,
    /// A supplied mass or coordinate lies outside the admissible range.
    InvalidArgument,
}

/// The simulation state as mathematics: the body sequence, the time step in
/// seconds, and the two flags steering the integration.
#[verifier::ext_equal]
pub struct SimModel {
    pub bodies: Seq<Body>,
    pub dt: int,
    pub paused: bool,
    pub reversed: bool,
}

/// An interactive n-body simulation.  Bodies sit in insertion order, so
/// indices handed out to an interaction layer stay meaningful until the
/// next removal.
pub struct Simulation {
    pub bodies: Vec<Body>,
    pub dt: i128,
    pub paused: bool,
    pub reversed: bool,
}

impl View for Simulation {
    type V = SimModel;

    open spec fn view(&self) -> SimModel {
        SimModel {
            bodies: self.bodies@,
            dt: self.dt as int,
            paused: self.paused,
            reversed: self.reversed,
        }
    }
}

/// An accumulated acceleration component pulled into the working range.
pub open spec fn acc_clamp(x: int) -> int {
    clamp_spec(x, -ACC_LIMIT as int, ACC_LIMIT as int)
}

/// Net acceleration on body `i`, accumulated over the attractions of the
/// first `k` bodies (body `i` itself exerts nothing), each addition clamped
/// into the working range.
pub open spec fn net_accel_prefix(bodies: Seq<Body>, i: int, k: int) -> (int, int)
    decreases k,
{
    if k <= 0 {
        (0, 0)
    } else {
        let prev = net_accel_prefix(bodies, i, k - 1);
        if k - 1 == i {
            prev
        } else {
            let c = accel_toward_spec(
                bodies[k - 1].mass as int,
                bodies[k - 1].pos.x - bodies[i].pos.x,
                bodies[k - 1].pos.y - bodies[i].pos.y,
            );
            (acc_clamp(prev.0 + c.0), acc_clamp(prev.1 + c.1))
        }
    }
}

/// Net gravitational acceleration on body `i` from every other body, in
/// nanometres per second squared.
pub open spec fn net_accel(bodies: Seq<Body>, i: int) -> (int, int) {
    net_accel_prefix(bodies, i, bodies.len() as int)
}

/// One coordinate advanced by `rate` for `dt` seconds, then pulled back
/// into `[-lim, lim]`.
pub open spec fn advance_spec(value: int, rate: int, dt: int, lim: int) -> int {
    clamp_spec(value + rate * dt, -lim, lim)
}

/// Body `i` after one integration step over the (unchanged) sequence
/// `bodies`: the position advances with the pre-update velocity, the
/// velocity with the net acceleration; reversed time subtracts both terms
/// instead of adding them.  Mass and colour never change.
pub open spec fn step_body_spec(bodies: Seq<Body>, i: int, dt: int, reversed: bool) -> Body {
    let b = bodies[i];
    let a = net_accel(bodies, i);
    let s: int = if reversed {
        -1
    } else {
        1
    };
    Body {
        mass: b.mass,
        pos: Vec2 {
            x: advance_spec(b.pos.x as int, s * b.vel.x, dt, POS_LIMIT as int) as i128,
            y: advance_spec(b.pos.y as int, s * b.vel.y, dt, POS_LIMIT as int) as i128,
        },
        vel: Vec2 {
            x: advance_spec(b.vel.x as int, s * a.0, dt, VEL_LIMIT as int) as i128,
            y: advance_spec(b.vel.y as int, s * a.1, dt, VEL_LIMIT as int) as i128,
        },
        color: b.color,
    }
}

/// The whole body sequence after one integration step.
pub open spec fn step_bodies_spec(bodies: Seq<Body>, dt: int, reversed: bool) -> Seq<Body> {
    Seq::new(bodies.len(), |i: int| step_body_spec(bodies, i, dt, reversed))
}

/// One tick of the simulation: a paused simulation does not move at all,
/// a running one advances its bodies by one step.
pub open spec fn sim_tick(m: SimModel) -> SimModel {
    if m.paused {
        m
    } else {
        SimModel {
            bodies: step_bodies_spec(m.bodies, m.dt, m.reversed),
            dt: m.dt,
            paused: m.paused,
            reversed: m.reversed,
        }
    }
}

/// `n` ticks in a row.
pub open spec fn sim_run(m: SimModel, n: nat) -> SimModel
    decreases n,
{
    if n == 0 {
        m
    } else {
        sim_tick(sim_run(m, (n - 1) as nat))
    }
}

/// However many ticks a paused simulation is given, nothing in it moves:
/// every body keeps its position and velocity exactly.
pub proof fn lemma_paused_never_moves(m: SimModel, n: nat)
    requires
        m.paused,
    ensures
        sim_run(m, n) == m,
    decreases n,
{
    if n > 0 {
        lemma_paused_never_moves(m, (n - 1) as nat);
    }
}

/// `b` with each supplied field replaced and the others kept.
pub open spec fn edited_body(
    b: Body,
    mass: Option<i128>,
    pos: Option<Vec2>,
    vel: Option<Vec2>,
    color: Option<Rgba>,
) -> Body {
    Body {
        mass: match mass {
            Some(m) => m,
            None => b.mass,
        },
        pos: match pos {
            Some(p) => p,
            None => b.pos,
        },
        vel: match vel {
            Some(v) => v,
            None => b.vel,
        },
        color: match color {
            Some(c) => c,
            None => b.color,
        },
    }
}

/// The replacements `edit_body` accepts: every supplied value sits inside
/// its working range.
pub open spec fn valid_edit(mass: Option<i128>, pos: Option<Vec2>, vel: Option<Vec2>) -> bool {
    &&& (mass matches Some(m) ==> 0 <= m <= MASS_MAX)
    &&& (pos matches Some(p) ==> p.within(POS_LIMIT as int))
    &&& (vel matches Some(v) ==> v.within(VEL_LIMIT as int))
}

/// A body stepped from a well-formed sequence is well formed again: the
/// clamps of the integration keep both coordinates in range and the mass
/// does not change.
pub proof fn lemma_step_body_wf(bodies: Seq<Body>, i: int, dt: int, reversed: bool)
    requires
        0 <= i < bodies.len(),
        bodies[i].wf(),
    ensures
        step_body_spec(bodies, i, dt, reversed).wf(),
{
}

/// The inputs `add_body` accepts: a non-negative mass inside the working
/// range (zero is allowed, for inert probes that pull on nothing), and
/// coordinates inside the world's ranges.
pub open spec fn valid_new_body(mass: i128, pos: Vec2, vel: Vec2) -> bool {
    &&& 0 <= mass <= MASS_MAX
    &&& pos.within(POS_LIMIT as int)
    &&& vel.within(VEL_LIMIT as int)
}

impl Simulation {
    /// The time step sits inside its clamp range and every body inside the
    /// world's working ranges.
    pub open spec fn wf(self) -> bool {
        &&& DT_MIN <= self.dt <= DT_MAX
        &&& forall|i: int| 0 <= i < self.bodies@.len() ==> self.bodies@[i].wf()
    }

    /// An empty simulation: no bodies, the default time step, running
    /// forward.
    pub fn new() -> (sim: Simulation)
        ensures
            sim.wf(),
            sim.bodies@.len() == 0,
            sim.dt == DEFAULT_DT,
            !sim.paused,
            !sim.reversed,
    {
        Simulation { bodies: Vec::new(), dt: DEFAULT_DT, paused: false, reversed: false }
    }

    /// Append a body with the given mass, position and velocity, zero
    /// acceleration implied and the default colour; refused exactly when
    /// one of the values lies outside its range, and the state is then
    /// untouched.
    pub fn add_body(&mut self, mass: i128, pos: Vec2, vel: Vec2) -> (r: Result<(), SimError>)
        requires
            old(self).wf(),
        ensures
            final(self).wf(),
            final(self).dt == old(self).dt,
            final(self).paused == old(self).paused,
            final(self).reversed == old(self).reversed,
            valid_new_body(mass, pos, vel) ==> r == Ok::<(), SimError>(()) && final(self).bodies@
                == old(self).bodies@.push(
                Body { mass, pos, vel, color: Rgba { r: 255u8, g: 255u8, b: 255u8, a: 255u8 } },
            ),
            !valid_new_body(mass, pos, vel) ==> r == Err::<(), SimError>(SimError::InvalidArgument)
                && final(self).bodies@ == old(self).bodies@,
    {
        if mass < 0 || mass > MASS_MAX {
            return Err(SimError::InvalidArgument);
        }
        if pos.x < -POS_LIMIT || pos.x > POS_LIMIT || pos.y < -POS_LIMIT || pos.y > POS_LIMIT {
            return Err(SimError::InvalidArgument);
        }
        if vel.x < -VEL_LIMIT || vel.x > VEL_LIMIT || vel.y < -VEL_LIMIT || vel.y > VEL_LIMIT {
            return Err(SimError::InvalidArgument);
        }
        self.bodies.push(Body { mass, pos, vel, color: Rgba::white() });
        Ok(())
    }

    /// Remove the body at `index`, every later body moving down one slot;
    /// refused exactly when `index` names no body.
    pub fn remove_body(&mut self, index: usize) -> (r: Result<(), SimError>)
        requires
            old(self).wf(),
        ensures
            final(self).wf(),
            final(self).dt == old(self).dt,
            final(self).paused == old(self).paused,
            final(self).reversed == old(self).reversed,
            index < old(self).bodies@.len() ==> r == Ok::<(), SimError>(()) && final(self).bodies@
                == old(self).bodies@.remove(index as int),
            index >= old(self).bodies@.len() ==> r == Err::<(), SimError>(
                SimError::IndexOutOfRange,
            ) && final(self).bodies@ == old(self).bodies@,
    {
        if index >= self.bodies.len() {
            return Err(SimError::IndexOutOfRange);
        }
        self.bodies.remove(index);
        Ok(())
    }

    /// Store `dt` as the new time step, clamped into `[DT_MIN, DT_MAX]`.
    pub fn set_time_step(&mut self, dt: i128)
        requires
            old(self).wf(),
        ensures
            final(self).wf(),
            final(self).dt == clamp_spec(dt as int, DT_MIN as int, DT_MAX as int),
            final(self).bodies@ == old(self).bodies@,
            final(self).paused == old(self).paused,
            final(self).reversed == old(self).reversed,
    {
        self.dt = clamp128(dt, DT_MIN, DT_MAX);
    }

    /// Halve the time step, subject to the same clamping.
    pub fn halve_time_step(&mut self)
        requires
            old(self).wf(),
        ensures
            final(self).wf(),
            final(self).dt == clamp_spec(old(self).dt as int / 2, DT_MIN as int, DT_MAX as int),
            final(self).bodies@ == old(self).bodies@,
            final(self).paused == old(self).paused,
            final(self).reversed == old(self).reversed,
    {
        let half: i128 = self.dt / 2;
        self.dt = clamp128(half, DT_MIN, DT_MAX);
    }

    /// Double the time step, subject to the same clamping.
    pub fn double_time_step(&mut self)
        requires
            old(self).wf(),
        ensures
            final(self).wf(),
            final(self).dt == clamp_spec(old(self).dt * 2, DT_MIN as int, DT_MAX as int),
            final(self).bodies@ == old(self).bodies@,
            final(self).paused == old(self).paused,
            final(self).reversed == old(self).reversed,
    {
        let doubled: i128 = self.dt * 2;
        self.dt = clamp128(doubled, DT_MIN, DT_MAX);
    }

    /// Stop the clock: later `step` calls leave every body untouched.
    pub fn pause(&mut self)
        requires
            old(self).wf(),
        ensures
            final(self).wf(),
            final(self).paused,
            final(self).bodies@ == old(self).bodies@,
            final(self).dt == old(self).dt,
            final(self).reversed == old(self).reversed,
    {
        self.paused = true;
    }

    /// Let the clock run again.
    pub fn resume(&mut self)
        requires
            old(self).wf(),
        ensures
            final(self).wf(),
            !final(self).paused,
            final(self).bodies@ == old(self).bodies@,
            final(self).dt == old(self).dt,
            final(self).reversed == old(self).reversed,
    {
        self.paused = false;
    }

    /// Choose the direction of time: `true` integrates backward.
    pub fn set_reversed(&mut self, reversed: bool)
        requires
            old(self).wf(),
        ensures
            final(self).wf(),
            final(self).reversed == reversed,
            final(self).bodies@ == old(self).bodies@,
            final(self).dt == old(self).dt,
            final(self).paused == old(self).paused,
    {
        self.reversed = reversed;
    }

    /// Replace the supplied fields of the body at `index`; refused without
    /// any change when the index names no body or a replacement value lies
    /// outside its range.
    pub fn edit_body(
        &mut self,
        index: usize,
        mass: Option<i128>,
        pos: Option<Vec2>,
        vel: Option<Vec2>,
        color: Option<Rgba>,
    ) -> (r: Result<(), SimError>)
        requires
            old(self).wf(),
        ensures
            final(self).wf(),
            final(self).dt == old(self).dt,
            final(self).paused == old(self).paused,
            final(self).reversed == old(self).reversed,
            index >= old(self).bodies@.len() ==> r == Err::<(), SimError>(
                SimError::IndexOutOfRange,
            ) && final(self).bodies@ == old(self).bodies@,
            index < old(self).bodies@.len() && !valid_edit(mass, pos, vel) ==> r == Err::<
                (),
                SimError,
            >(SimError::InvalidArgument) && final(self).bodies@ == old(self).bodies@,
            index < old(self).bodies@.len() && valid_edit(mass, pos, vel) ==> r == Ok::<
                (),
                SimError,
            >(()) && final(self).bodies@ == old(self).bodies@.update(
                index as int,
                edited_body(old(self).bodies@[index as int], mass, pos, vel, color),
            ),
    {
        if index >= self.bodies.len() {
            return Err(SimError::IndexOutOfRange);
        }
        if let Some(m) = mass {
            if m < 0 || m > MASS_MAX {
                return Err(SimError::InvalidArgument);
            }
        }
        if let Some(p) = pos {
            if p.x < -POS_LIMIT || p.x > POS_LIMIT || p.y < -POS_LIMIT || p.y > POS_LIMIT {
                return Err(SimError::InvalidArgument);
            }
        }
        if let Some(v) = vel {
            if v.x < -VEL_LIMIT || v.x > VEL_LIMIT || v.y < -VEL_LIMIT || v.y > VEL_LIMIT {
                return Err(SimError::InvalidArgument);
            }
        }
        let b: Body = self.bodies[index];
        let nb = Body {
            mass: match mass {
                Some(m) => m,
                None => b.mass,
            },
            pos: match pos {
                Some(p) => p,
                None => b.pos,
            },
            vel: match vel {
                Some(v) => v,
                None => b.vel,
            },
            color: match color {
                Some(c) => c,
                None => b.color,
            },
        };
        self.bodies[index] = nb;
        Ok(())
    }

    /// How many bodies the simulation holds.
    pub fn body_count(&self) -> (n: usize)
        ensures
            n == self.bodies@.len(),
    {
        self.bodies.len()
    }

    /// The body at `index`, or nothing when the index is out of range.
    pub fn body(&self, index: usize) -> (r: Option<Body>)
        ensures
            index < self.bodies@.len() ==> r == Some(self.bodies@[index as int]),
            index >= self.bodies@.len() ==> r is None,
    {
        if index < self.bodies.len() {
            Some(self.bodies[index])
        } else {
            None
        }
    }

    /// The current time step, in seconds.
    pub fn time_step(&self) -> (dt: i128)
        ensures
            dt == self.dt,
    {
        self.dt
    }

    /// Whether the clock is stopped.
    pub fn is_paused(&self) -> (p: bool)
        ensures
            p == self.paused,
    {
        self.paused
    }

    /// Whether time runs backward.
    pub fn is_reversed(&self) -> (p: bool)
        ensures
            p == self.reversed,
    {
        self.reversed
    }

    /// The net gravitational acceleration on every body, in nanometres per
    /// second squared, computed fresh from the current positions; entry `i`
    /// belongs to body `i`.  The simulation itself is not touched.
    pub fn accelerations(&self) -> (accs: Vec<Vec2>)
        requires
            self.wf(),
        ensures
            accs@.len() == self.bodies@.len(),
            forall|i: int|
                0 <= i < accs@.len() ==> accs@[i].x == net_accel(self.bodies@, i).0
                    && accs@[i].y == net_accel(self.bodies@, i).1,
            forall|i: int| 0 <= i < accs@.len() ==> accs@[i].within(ACC_LIMIT as int),
    {
        let n: usize = self.bodies.len();
        let mut accs: Vec<Vec2> = Vec::new();
        let mut i: usize = 0;
        while i < n
            invariant
                i <= n,
                n == self.bodies@.len(),
                self.wf(),
                accs@.len() == i,
                forall|k: int|
                    0 <= k < i ==> accs@[k].x == net_accel(self.bodies@, k).0 && accs@[k].y
                        == net_accel(self.bodies@, k).1,
                forall|k: int| 0 <= k < i ==> accs@[k].within(ACC_LIMIT as int),
            decreases n - i,
        {
            let mut ax: i128 = 0;
            let mut ay: i128 = 0;
            let mut j: usize = 0;
            while j < n
                invariant
                    i < n,
                    j <= n,
                    n == self.bodies@.len(),
                    self.wf(),
                    ax == net_accel_prefix(self.bodies@, i as int, j as int).0,
                    ay == net_accel_prefix(self.bodies@, i as int, j as int).1,
                    -ACC_LIMIT <= ax <= ACC_LIMIT,
                    -ACC_LIMIT <= ay <= ACC_LIMIT,
                decreases n - j,
            {
                if j != i {
                    let c: Vec2 = self.bodies[i].accel_towards(&self.bodies[j]);
                    ax = clamp128(ax + c.x, -ACC_LIMIT, ACC_LIMIT);
                    ay = clamp128(ay + c.y, -ACC_LIMIT, ACC_LIMIT);
                }
                j = j + 1;
            }
            accs.push(Vec2 { x: ax, y: ay });
            i = i + 1;
        }
        accs
    }

    /// One discrete step: nothing at all when paused; otherwise every
    /// body's net acceleration is computed from the current positions,
    /// then every body advances its position with its pre-update velocity
    /// and its velocity with its acceleration (both subtracted instead when
    /// time is reversed).  No acceleration survives into the next step.
    pub fn step(&mut self)
        requires
            old(self).wf(),
        ensures
            final(self).wf(),
            final(self)@ == sim_tick(old(self)@),
            final(self).dt == old(self).dt,
            final(self).paused == old(self).paused,
            final(self).reversed == old(self).reversed,
            old(self).paused ==> final(self).bodies@ == old(self).bodies@,
            !old(self).paused ==> final(self).bodies@ == step_bodies_spec(
                old(self).bodies@,
                old(self).dt as int,
                old(self).reversed,
            ),
    {
        if self.paused {
            return ;
        }
        let ghost orig = self.bodies@;
        let accs: Vec<Vec2> = self.accelerations();
        let n: usize = self.bodies.len();
        let mut i: usize = 0;
        while i < n
            invariant
                i <= n,
                n == orig.len(),
                self.bodies@.len() == n,
                accs@.len() == n,
                self.dt == old(self).dt,
                self.paused == old(self).paused,
                self.reversed == old(self).reversed,
                DT_MIN <= self.dt <= DT_MAX,
                forall|k: int|
                    0 <= k < n ==> accs@[k].x == net_accel(orig, k).0 && accs@[k].y == net_accel(
                        orig,
                        k,
                    ).1,
                forall|k: int| 0 <= k < n ==> accs@[k].within(ACC_LIMIT as int),
                forall|k: int| i <= k < n ==> self.bodies@[k] == orig[k],
                forall|k: int| 0 <= k < n ==> orig[k].wf(),
                forall|k: int|
                    0 <= k < i ==> self.bodies@[k] == step_body_spec(
                        orig,
                        k,
                        self.dt as int,
                        self.reversed,
                    ),
            decreases n - i,
        {
            let b: Body = self.bodies[i];
            let a: Vec2 = accs[i];
            proof {
                assert(b == orig[i as int]);
                assert(b.wf());
                assert(a.x == net_accel(orig, i as int).0 && a.y == net_accel(orig, i as int).1);
                assert(a.within(ACC_LIMIT as int));
            }
            let rate_px: i128 = if self.reversed {
                -b.vel.x
            } else {
                b.vel.x
            };
            let rate_py: i128 = if self.reversed {
                -b.vel.y
            } else {
                b.vel.y
            };
            let rate_vx: i128 = if self.reversed {
                -a.x
            } else {
                a.x
            };
            let rate_vy: i128 = if self.reversed {
                -a.y
            } else {
                a.y
            };
            let npx: i128 = advance(b.pos.x, rate_px, self.dt, POS_LIMIT);
            let npy: i128 = advance(b.pos.y, rate_py, self.dt, POS_LIMIT);
            let nvx: i128 = advance(b.vel.x, rate_vx, self.dt, VEL_LIMIT);
            let nvy: i128 = advance(b.vel.y, rate_vy, self.dt, VEL_LIMIT);
            let nb = Body {
                mass: b.mass,
                pos: Vec2 { x: npx, y: npy },
                vel: Vec2 { x: nvx, y: nvy },
                color: b.color,
            };
            self.bodies[i] = nb;
            proof {
                let ii = i as int;
                let dti = self.dt as int;
                let sb = step_body_spec(orig, ii, dti, self.reversed);
                let s: int = if self.reversed {
                    -1
                } else {
                    1
                };
                let a0 = net_accel(orig, ii).0;
                let a1 = net_accel(orig, ii).1;
                assert(s * (b.vel.x as int) == (if s == 1 {
                    b.vel.x as int
                } else {
                    -(b.vel.x as int)
                }) && s * (b.vel.y as int) == (if s == 1 {
                    b.vel.y as int
                } else {
                    -(b.vel.y as int)
                }) && s * a0 == (if s == 1 {
                    a0
                } else {
                    -a0
                }) && s * a1 == (if s == 1 {
                    a1
                } else {
                    -a1
                })) by (nonlinear_arith)
                    requires
                        s == 1 || s == -1;
                assert(rate_px as int == s * b.vel.x && rate_py as int == s * b.vel.y);
                assert(rate_vx as int == s * a0 && rate_vy as int == s * a1);
                assert(sb.pos.x == advance_spec(b.pos.x as int, s * b.vel.x, dti, POS_LIMIT as int)
                    as i128);
                assert(sb.vel.x == advance_spec(
                    b.vel.x as int,
                    s * net_accel(orig, ii).0,
                    dti,
                    VEL_LIMIT as int,
                ) as i128);
                assert(nb.pos.x == sb.pos.x && nb.pos.y == sb.pos.y);
                assert(nb.vel.x == sb.vel.x && nb.vel.y == sb.vel.y);
                assert(nb == sb);
                assert(self.bodies@[ii] == sb);
            }
            i = i + 1;
        }
        proof {
            assert(self.bodies@ =~= step_bodies_spec(orig, self.dt as int, self.reversed));
            assert forall|k: int| 0 <= k < self.bodies@.len() implies self.bodies@[k].wf() by {
                lemma_step_body_wf(orig, k, self.dt as int, self.reversed);
            }
            assert(self@ =~= sim_tick(old(self)@));
        }
    }
}

/// With fewer than two bodies nothing attracts anything: the net
/// acceleration vanishes and a step leaves every velocity exactly as it
/// was (a single moving body still coasts along its own velocity).
pub proof fn lemma_lonely_body_coasts(bodies: Seq<Body>, i: int, dt: int, reversed: bool)
    requires
        bodies.len() <= 1,
        0 <= i < bodies.len(),
        bodies[i].wf(),
    ensures
        net_accel(bodies, i) == (0int, 0int),
        step_body_spec(bodies, i, dt, reversed).vel.x == bodies[i].vel.x,
        step_body_spec(bodies, i, dt, reversed).vel.y == bodies[i].vel.y,
        step_body_spec(bodies, i, dt, reversed).mass == bodies[i].mass,
        step_body_spec(bodies, i, dt, reversed).color == bodies[i].color,
{
    assert(net_accel_prefix(bodies, i, 0) == (0int, 0int));
    assert(net_accel_prefix(bodies, i, 1) == (0int, 0int));
    let s: int = if reversed {
        -1
    } else {
        1
    };
    assert(s * 0 == 0 && 0 * dt == 0) by (nonlinear_arith);
}

/// Two bodies of equal mass, both at rest: one step leaves both positions
/// where they were and hands the two bodies exactly opposite velocities,
/// each directed toward the other.
pub proof fn lemma_equal_mass_rest_pair(bodies: Seq<Body>, dt: int, reversed: bool)
    requires
        bodies.len() == 2,
        bodies[0].wf(),
        bodies[1].wf(),
        bodies[0].mass == bodies[1].mass,
        bodies[0].vel == (Vec2 { x: 0i128, y: 0i128 }),
        bodies[1].vel == (Vec2 { x: 0i128, y: 0i128 }),
    ensures
        step_body_spec(bodies, 0, dt, reversed).pos.x == bodies[0].pos.x,
        step_body_spec(bodies, 0, dt, reversed).pos.y == bodies[0].pos.y,
        step_body_spec(bodies, 1, dt, reversed).pos.x == bodies[1].pos.x,
        step_body_spec(bodies, 1, dt, reversed).pos.y == bodies[1].pos.y,
        step_body_spec(bodies, 0, dt, reversed).vel.x == -step_body_spec(
            bodies,
            1,
            dt,
            reversed,
        ).vel.x,
        step_body_spec(bodies, 0, dt, reversed).vel.y == -step_body_spec(
            bodies,
            1,
            dt,
            reversed,
        ).vel.y,
{
    let b0 = bodies[0];
    let b1 = bodies[1];
    let c1 = accel_toward_spec(b1.mass as int, b1.pos.x - b0.pos.x, b1.pos.y - b0.pos.y);
    let c0 = accel_toward_spec(b0.mass as int, b0.pos.x - b1.pos.x, b0.pos.y - b1.pos.y);
    lemma_accel_newton_equal_mass(b0, b1);
    assert(c1.0 == -c0.0 && c1.1 == -c0.1);
    assert(net_accel_prefix(bodies, 0, 0) == (0int, 0int));
    assert(net_accel_prefix(bodies, 1, 0) == (0int, 0int));
    assert(net_accel_prefix(bodies, 0, 1) == (0int, 0int));
    assert(net_accel_prefix(bodies, 1, 1) == (acc_clamp(0 + c0.0), acc_clamp(0 + c0.1)));
    assert(net_accel_prefix(bodies, 0, 2) == (acc_clamp(0 + c1.0), acc_clamp(0 + c1.1)));
    assert(net_accel_prefix(bodies, 1, 2) == net_accel_prefix(bodies, 1, 1));
    let a0 = net_accel(bodies, 0);
    let a1 = net_accel(bodies, 1);
    lemma_clamp_odd(c0.0, ACC_LIMIT as int);
    lemma_clamp_odd(c0.1, ACC_LIMIT as int);
    assert(a0.0 == -a1.0 && a0.1 == -a1.1);
    let s: int = if reversed {
        -1
    } else {
        1
    };
    assert(s * a0.0 == -(s * a1.0) && s * a0.1 == -(s * a1.1)) by (nonlinear_arith)
        requires
            a0.0 == -a1.0,
            a0.1 == -a1.1;
    assert((s * a0.0) * dt == -((s * a1.0) * dt) && (s * a0.1) * dt == -((s * a1.1) * dt))
        by (nonlinear_arith)
        requires
            s * a0.0 == -(s * a1.0),
            s * a0.1 == -(s * a1.1);
    lemma_clamp_odd((s * a1.0) * dt, VEL_LIMIT as int);
    lemma_clamp_odd((s * a1.1) * dt, VEL_LIMIT as int);
    assert(s * 0 == 0 && 0 * dt == 0) by (nonlinear_arith);
}

/// A time step sitting at a bound of its range is pinned there: doubling
/// at the top and halving at the bottom both answer the bound itself,
/// never a value beyond it.
pub proof fn lemma_time_step_pinned(dt: int)
    ensures
        dt == DT_MAX ==> clamp_spec(dt * 2, DT_MIN as int, DT_MAX as int) == DT_MAX,
        dt == DT_MIN ==> clamp_spec(dt / 2, DT_MIN as int, DT_MAX as int) == DT_MIN,
{
}

/// Removing the body at `k` keeps every other body in its relative order:
/// earlier indices are untouched and each body after `k` moves down by
/// exactly one slot.
pub proof fn lemma_remove_reindexes(bodies: Seq<Body>, k: int)
    requires
        0 <= k < bodies.len(),
    ensures
        bodies.remove(k).len() == bodies.len() - 1,
        forall|j: int| 0 <= j < k ==> bodies.remove(k)[j] == bodies[j],
        forall|j: int| k <= j < bodies.len() - 1 ==> bodies.remove(k)[j] == bodies[j + 1],
{
}

/// Pixel `(px, py)` lands within the selection radius of `b` on screen.
pub open spec fn hit_spec(cam: Camera, b: Body, px: int, py: int) -> bool {
    let vx = cam.world_to_view_x(b.pos.x as int);
    let vy = cam.world_to_view_y(b.pos.y as int);
    (vx - px) * (vx - px) + (vy - py) * (vy - py) < SELECT_RADIUS_SQ
}

impl Simulation {
    /// The body shown within the selection radius of the given pixel, as
    /// the interaction layer's hit test: of several candidates the one
    /// with the highest index — the youngest — wins; nothing when no body
    /// is near the pixel.
    pub fn body_at_pixel(&self, cam: &Camera, px: i128, py: i128) -> (r: Option<usize>)
        requires
            self.wf(),
            cam.wf(),
            -PIXEL_LIMIT <= px <= PIXEL_LIMIT,
            -PIXEL_LIMIT <= py <= PIXEL_LIMIT,
        ensures
            match r {
                Some(i) => i < self.bodies@.len() && hit_spec(
                    *cam,
                    self.bodies@[i as int],
                    px as int,
                    py as int,
                ) && forall|j: int|
                    i < j < self.bodies@.len() ==> !hit_spec(
                        *cam,
                        self.bodies@[j],
                        px as int,
                        py as int,
                    ),
                None => forall|j: int|
                    0 <= j < self.bodies@.len() ==> !hit_spec(
                        *cam,
                        self.bodies@[j],
                        px as int,
                        py as int,
                    ),
            },
    {
        let n: usize = self.bodies.len();
        let mut found: Option<usize> = None;
        let mut j: usize = 0;
        while j < n
            invariant
                j <= n,
                n == self.bodies@.len(),
                self.wf(),
                cam.wf(),
                -PIXEL_LIMIT <= px <= PIXEL_LIMIT,
                -PIXEL_LIMIT <= py <= PIXEL_LIMIT,
                match found {
                    Some(s) => s < j && hit_spec(*cam, self.bodies@[s as int], px as int, py as int)
                        && forall|t: int|
                        s < t < j ==> !hit_spec(*cam, self.bodies@[t], px as int, py as int),
                    None => forall|t: int|
                        0 <= t < j ==> !hit_spec(*cam, self.bodies@[t], px as int, py as int),
                },
            decreases n - j,
        {
            let b: Body = self.bodies[j];
            proof {
                assert(b.wf());
            }
            let v: Vec2 = cam.world_to_view(b.pos);
            proof {
                let wx = (b.pos.x - cam.origin.x) as int;
                let wy = (b.pos.y - cam.origin.y) as int;
                lemma_div_trunc_abs(wx, cam.scale as int);
                lemma_div_trunc_abs(wy, cam.scale as int);
                lemma_div_is_ordered_by_denominator(abs_spec(wx), SCALE_MIN as int, cam.scale as int);
                lemma_div_is_ordered_by_denominator(abs_spec(wy), SCALE_MIN as int, cam.scale as int);
                lemma_div_is_ordered(abs_spec(wx), 2 * POS_LIMIT as int, SCALE_MIN as int);
                lemma_div_is_ordered(abs_spec(wy), 2 * POS_LIMIT as int, SCALE_MIN as int);
                assert(abs_spec(div_trunc(wx, cam.scale as int)) <= 2_000_000_000_000_000_000int);
                assert(abs_spec(div_trunc(wy, cam.scale as int)) <= 2_000_000_000_000_000_000int);
            }
            let dxp: i128 = v.x - px;
            let dyp: i128 = v.y - py;
            proof {
                assert(dxp * dxp >= 0 && dxp * dxp
                    <= 9_000_000_000_000_000_000_000_000_000_000_000_000int && dyp * dyp >= 0
                    && dyp * dyp <= 9_000_000_000_000_000_000_000_000_000_000_000_000int)
                    by (nonlinear_arith)
                    requires
                        -3_000_000_000_000_000_000 <= dxp <= 3_000_000_000_000_000_000,
                        -3_000_000_000_000_000_000 <= dyp <= 3_000_000_000_000_000_000;
            }
            if dxp * dxp + dyp * dyp < SELECT_RADIUS_SQ {
                found = Some(j);
            }
            j = j + 1;
        }
        found
    }
}

/// One coordinate advanced by `rate` for `dt` seconds and pulled back into
/// `[-lim, lim]`; the huge-rate cases are decided without forming the
/// product, so no intermediate can overflow.
fn advance(value: i128, rate: i128, dt: i128, lim: i128) -> (r: i128)
    requires
        1 <= lim <= POS_LIMIT,
        -lim <= value <= lim,
        -ACC_LIMIT <= rate <= ACC_LIMIT,
        DT_MIN <= dt <= DT_MAX,
    ensures
        r == advance_spec(value as int, rate as int, dt as int, lim as int),
        -lim <= r <= lim,
{
    if rate >= 2 * lim {
        proof {
            assert(value + rate * dt >= lim) by (nonlinear_arith)
                requires
                    rate >= 2 * lim,
                    dt >= 1,
                    value >= -lim,
                    lim >= 1;
        }
        lim
    } else if rate <= -(2 * lim) {
        proof {
            assert(value + rate * dt <= -lim) by (nonlinear_arith)
                requires
                    rate <= -(2 * lim),
                    dt >= 1,
                    value <= lim,
                    lim >= 1;
        }
        -lim
    } else {
        proof {
            assert(rate * dt <= 2 * POS_LIMIT * DT_MAX && rate * dt >= -(2 * POS_LIMIT * DT_MAX))
                by (nonlinear_arith)
                requires
                    -(2 * lim) < rate < 2 * lim,
                    1 <= lim <= POS_LIMIT,
                    0 < dt <= DT_MAX;
        }
        let p: i128 = rate * dt;
        clamp128(value + p, -lim, lim)
    }
}

} // verus!
