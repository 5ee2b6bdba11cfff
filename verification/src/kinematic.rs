//! The per-tick kinematic force-accumulation pipeline.
//!
//! Each movable entity carries a position, a velocity, an acceleration
//! accumulator and optionally a dampening accumulator. Intent resolvers add
//! contributions to the accumulators; once per tick the integrator consumes
//! the accumulated values, advances position and velocity, and resets the
//! accumulators. Dampening is a speed-reducing correction that can never
//! reverse the direction of the velocity.
//!
//! All scalars are fixed-point (see `crate::fx`); every contract states the
//! exact integer that is computed.

use vstd::prelude::*;

use crate::fx::{Vec2Fx, s_abs, s_tdiv, s_mulfx, s_half, s_len, s_sq_len, s_unit_x, s_unit_y};
use crate::fx::{is_isqrt, lemma_isqrt, lemma_isqrt_unique, lemma_sqrt_bound};
use crate::fx::{lemma_square_nonneg, lemma_square_le, lemma_mulfx_bound, lemma_tdiv_props};
use crate::fx::{lemma_abs_mul, lemma_mul_sign, lemma_mag_product_bound};
use crate::fx::{mulfx, halffx, length, normalize_or_zero};

verus! {

/// The largest magnitude allowed for a configured coordinate, velocity
/// component, destination, or propulsion parameter.
pub const COORD_LIMIT: i64 = 1_000_000_000_000_000;

/// The largest magnitude an accumulator may reach before the integrator
/// drains it.
pub const ACCUM_LIMIT: i64 = 4_000_000_000_000_000;

/// The longest tick accepted, in fixed-point seconds (thirty seconds).
pub const DT_LIMIT: i64 = 30_000;

/// A world position.
#[derive(Debug, Clone, Copy, PartialEq, Eq, Structural)]
pub struct Position(pub Vec2Fx);

/// A velocity. Prerequisite: `Position`.
#[derive(Debug, Clone, Copy, PartialEq, Eq, Structural)]
pub struct Velocity(pub Vec2Fx);

/// The acceleration accumulator, drained at the end of every tick.
/// Prerequisite: `Velocity`.
#[derive(Debug, Clone, Copy, PartialEq, Eq, Structural)]
pub struct Acceleration(pub Vec2Fx);

impl Acceleration {
    /// Add a contribution; contributions sum, none overwrites another.
    pub fn accumulate(&mut self, acc: Vec2Fx)
        requires
            -0x7fff_ffff_ffff_ffff <= old(self).0.x + acc.x <= 0x7fff_ffff_ffff_ffff,
            -0x7fff_ffff_ffff_ffff <= old(self).0.y + acc.y <= 0x7fff_ffff_ffff_ffff,
        ensures
            final(self).0.x == old(self).0.x + acc.x,
            final(self).0.y == old(self).0.y + acc.y,
    {
        self.0.x = self.0.x + acc.x;
        self.0.y = self.0.y + acc.y;
    }

    /// Drain the accumulator.
    pub fn reset(&mut self)
        ensures
            final(self).0.x == 0,
            final(self).0.y == 0,
    {
        self.0 = Vec2Fx { x: 0, y: 0 };
    }
}

/// The dampening accumulator: a bound, never negative, on how much speed
/// the coming integration step may remove. It can never increase speed nor
/// reverse the velocity. Prerequisite: `Velocity`.
#[derive(Debug, Clone, Copy, PartialEq, Eq, Structural)]
pub struct Dampening {
    pub max_acc: i64,
}

impl Dampening {
    /// Add a speed-reduction request; requests sum within a tick.
    pub fn accumulate(&mut self, acc: i64)
        requires
            0 <= acc,
            0 <= old(self).max_acc,
            old(self).max_acc + acc <= 0x7fff_ffff_ffff_ffff,
        ensures
            final(self).max_acc == old(self).max_acc + acc,
    {
        self.max_acc = self.max_acc + acc;
    }

    /// Drain the accumulator.
    pub fn reset(&mut self)
        ensures
            final(self).max_acc == 0,
    {
        self.max_acc = 0;
    }
}

/// An entity's mass.
#[derive(Debug, Clone, Copy, PartialEq, Eq, Structural)]
pub struct Mass(pub i64);

impl Default for Mass {
    /// One unit of mass.
    fn default() -> (r: Mass)
        ensures
            r.0 == 1000,
    {
        Mass(1000)
    }
}

/// The parameters of a self-moving entity: its maximum self-acceleration.
/// Prerequisite: `Acceleration`.
#[derive(Debug, Clone, Copy, PartialEq, Eq, Structural)]
pub struct SelfMoving {
    pub accel: i64,
}

/// Action: decelerate to zero velocity. Prerequisite: `SelfMoving`.
#[derive(Debug, Clone, Copy, PartialEq, Eq, Structural)]
pub struct Decelerating;

/// Action: move to a destination. Prerequisite: `SelfMoving`.
#[derive(Debug, Clone, Copy, PartialEq, Eq, Structural)]
pub struct MovingTo {
    pub dest: Vec2Fx,
}

/// Action: follow a target entity. Prerequisite: `MovingTo`.
#[derive(Debug, Clone, Copy, PartialEq, Eq, Structural)]
pub struct Following {
    pub target: usize,
}

/// Action: move in a direction, given as a unit vector or zero.
#[derive(Debug, Clone, Copy, PartialEq, Eq, Structural)]
pub struct MovingIn {
    pub dir: Vec2Fx,
}

/// A cross-section size that is the same in all directions: the entity is
/// symmetric.
#[derive(Debug, Clone, Copy, PartialEq, Eq, Structural)]
pub struct CrossSectionSize(pub i64);

impl Default for CrossSectionSize {
    /// One unit of cross-section.
    fn default() -> (r: CrossSectionSize)
        ensures
            r.0 == 1000,
    {
        CrossSectionSize(1000)
    }
}

/// The entity experiences fluid drag with the given coefficient.
#[derive(Debug, Clone, Copy, PartialEq, Eq, Structural)]
pub struct ExperienceDrag {
    pub coeff: i64,
}

impl Default for ExperienceDrag {
    /// A drag coefficient of one.
    fn default() -> (r: ExperienceDrag)
        ensures
            r.coeff == 1000,
    {
        ExperienceDrag { coeff: 1000 }
    }
}

/// The density of the surrounding fluid, for drag.
#[derive(Debug, Clone, Copy, PartialEq, Eq, Structural)]
pub struct FluidDensity(pub i64);

/// The speed the integration step removes: the accumulated dampening times
/// the tick length, clamped to the current speed so that dampening can
/// never drive speed negative.
pub open spec fn s_damp_dv(vel: Vec2Fx, max_damp_acc: int, dt: int) -> int {
    let mdv = s_mulfx(max_damp_acc, dt);
    let speed = s_len(vel);
    if mdv <= speed {
        mdv
    } else {
        speed
    }
}

/// The velocity change of one integration step, x component: accumulated
/// acceleration times the tick length, minus the dampening reduction taken
/// along the unit direction of the velocity.
pub open spec fn s_dv_x(vel: Vec2Fx, acc: Vec2Fx, max_damp_acc: int, dt: int) -> int {
    s_mulfx(acc.x as int, dt) - s_mulfx(s_unit_x(vel), s_damp_dv(vel, max_damp_acc, dt))
}

/// See `s_dv_x`.
pub open spec fn s_dv_y(vel: Vec2Fx, acc: Vec2Fx, max_damp_acc: int, dt: int) -> int {
    s_mulfx(acc.y as int, dt) - s_mulfx(s_unit_y(vel), s_damp_dv(vel, max_damp_acc, dt))
}

/// The position change of one integration step, x component: the tick
/// length times the average of the old and new velocity, the trapezoidal
/// rule for constant acceleration over the tick.
pub open spec fn s_dp_x(vel: Vec2Fx, acc: Vec2Fx, max_damp_acc: int, dt: int) -> int {
    s_mulfx(dt, vel.x + s_half(s_dv_x(vel, acc, max_damp_acc, dt)))
}

/// See `s_dp_x`.
pub open spec fn s_dp_y(vel: Vec2Fx, acc: Vec2Fx, max_damp_acc: int, dt: int) -> int {
    s_mulfx(dt, vel.y + s_half(s_dv_y(vel, acc, max_damp_acc, dt)))
}

/// The speed of a bounded velocity stays within one-and-a-half times the
/// coordinate limit.
proof fn lemma_speed_bound(vel: Vec2Fx)
    requires
        s_abs(vel.x as int) <= COORD_LIMIT,
        s_abs(vel.y as int) <= COORD_LIMIT,
    ensures
        0 <= s_len(vel) <= 1_500_000_000_000_000,
        is_isqrt(s_sq_len(vel), s_len(vel)),
{
    lemma_square_nonneg(vel.x as int);
    lemma_square_nonneg(vel.y as int);
    lemma_square_le(s_abs(vel.x as int), COORD_LIMIT as int);
    lemma_square_le(s_abs(vel.y as int), COORD_LIMIT as int);
    lemma_isqrt(s_sq_len(vel));
    lemma_sqrt_bound(s_len(vel), s_sq_len(vel), 1_500_000_000_000_000);
}

/// One integration step for one entity: from its position, velocity,
/// accumulated acceleration and accumulated dampening, the new position and
/// the new velocity, exactly as the spec-level step functions give them.
pub fn integrate_motion(pos: Vec2Fx, vel: Vec2Fx, acc: Vec2Fx, max_damp_acc: i64, dt: i64) -> (r: (
    Vec2Fx,
    Vec2Fx,
))
    requires
        s_abs(pos.x as int) <= COORD_LIMIT,
        s_abs(pos.y as int) <= COORD_LIMIT,
        s_abs(vel.x as int) <= COORD_LIMIT,
        s_abs(vel.y as int) <= COORD_LIMIT,
        s_abs(acc.x as int) <= ACCUM_LIMIT,
        s_abs(acc.y as int) <= ACCUM_LIMIT,
        0 <= max_damp_acc <= ACCUM_LIMIT,
        0 <= dt <= DT_LIMIT,
    ensures
        r.0.x as int == pos.x + s_dp_x(vel, acc, max_damp_acc as int, dt as int),
        r.0.y as int == pos.y + s_dp_y(vel, acc, max_damp_acc as int, dt as int),
        r.1.x as int == vel.x + s_dv_x(vel, acc, max_damp_acc as int, dt as int),
        r.1.y as int == vel.y + s_dv_y(vel, acc, max_damp_acc as int, dt as int),
{
    proof {
        lemma_speed_bound(vel);
        lemma_mulfx_bound(max_damp_acc as int, dt as int, ACCUM_LIMIT as int, DT_LIMIT as int);
    }
    let max_damp_dv: i64 = mulfx(max_damp_acc, dt);
    let speed: i64 = length(vel);
    proof {
        lemma_isqrt_unique(s_sq_len(vel), speed as int, s_len(vel));
    }
    let damp_dv: i64 = if max_damp_dv <= speed {
        max_damp_dv
    } else {
        speed
    };
    let unit: Vec2Fx = normalize_or_zero(vel);
    proof {
        lemma_mulfx_bound(unit.x as int, damp_dv as int, 1000, 1_500_000_000_000_000);
        lemma_mulfx_bound(unit.y as int, damp_dv as int, 1000, 1_500_000_000_000_000);
        lemma_mulfx_bound(acc.x as int, dt as int, ACCUM_LIMIT as int, DT_LIMIT as int);
        lemma_mulfx_bound(acc.y as int, dt as int, ACCUM_LIMIT as int, DT_LIMIT as int);
    }
    let dvx: i64 = mulfx(acc.x, dt) - mulfx(unit.x, damp_dv);
    let dvy: i64 = mulfx(acc.y, dt) - mulfx(unit.y, damp_dv);
    let hx: i64 = halffx(dvx);
    let hy: i64 = halffx(dvy);
    proof {
        lemma_mulfx_bound(dt as int, (vel.x + hx) as int, DT_LIMIT as int, 62_000_000_000_000_000);
        lemma_mulfx_bound(dt as int, (vel.y + hy) as int, DT_LIMIT as int, 62_000_000_000_000_000);
    }
    let dpx: i64 = mulfx(dt, vel.x + hx);
    let dpy: i64 = mulfx(dt, vel.y + hy);
    (Vec2Fx { x: pos.x + dpx, y: pos.y + dpy }, Vec2Fx { x: vel.x + dvx, y: vel.y + dvy })
}

/// One drift step for one non-accelerating entity: the position moves by
/// exactly the velocity times the tick length.
pub fn drift_step(pos: Vec2Fx, vel: Vec2Fx, dt: i64) -> (r: Vec2Fx)
    requires
        s_abs(pos.x as int) <= COORD_LIMIT,
        s_abs(pos.y as int) <= COORD_LIMIT,
        s_abs(vel.x as int) <= COORD_LIMIT,
        s_abs(vel.y as int) <= COORD_LIMIT,
        0 <= dt <= DT_LIMIT,
    ensures
        r.x as int == pos.x + s_mulfx(vel.x as int, dt as int),
        r.y as int == pos.y + s_mulfx(vel.y as int, dt as int),
{
    proof {
        lemma_mulfx_bound(vel.x as int, dt as int, COORD_LIMIT as int, DT_LIMIT as int);
        lemma_mulfx_bound(vel.y as int, dt as int, COORD_LIMIT as int, DT_LIMIT as int);
    }
    Vec2Fx { x: pos.x + mulfx(vel.x, dt), y: pos.y + mulfx(vel.y, dt) }
}

/// The vector from `pos` to `dest`.
pub open spec fn s_to_dest(pos: Vec2Fx, dest: Vec2Fx) -> Vec2Fx {
    Vec2Fx { x: (dest.x - pos.x) as i64, y: (dest.y - pos.y) as i64 }
}

/// The seek contribution, x component: the unit direction toward the
/// destination times the maximum self-acceleration; at the destination the
/// contribution is zero.
pub open spec fn s_seek_x(pos: Vec2Fx, dest: Vec2Fx, accel: int) -> int {
    s_mulfx(s_unit_x(s_to_dest(pos, dest)), accel)
}

/// See `s_seek_x`.
pub open spec fn s_seek_y(pos: Vec2Fx, dest: Vec2Fx, accel: int) -> int {
    s_mulfx(s_unit_y(s_to_dest(pos, dest)), accel)
}

/// The acceleration a seek-destination intent contributes: toward the
/// destination, with the full self-acceleration; zero when already there.
pub fn seek_acceleration(pos: Vec2Fx, dest: Vec2Fx, accel: i64) -> (r: Vec2Fx)
    requires
        s_abs(pos.x as int) <= COORD_LIMIT,
        s_abs(pos.y as int) <= COORD_LIMIT,
        s_abs(dest.x as int) <= COORD_LIMIT,
        s_abs(dest.y as int) <= COORD_LIMIT,
        0 <= accel <= COORD_LIMIT,
    ensures
        r.x as int == s_seek_x(pos, dest, accel as int),
        r.y as int == s_seek_y(pos, dest, accel as int),
        s_abs(r.x as int) <= COORD_LIMIT,
        s_abs(r.y as int) <= COORD_LIMIT,
{
    let diff = Vec2Fx { x: dest.x - pos.x, y: dest.y - pos.y };
    let unit = normalize_or_zero(diff);
    proof {
        lemma_mulfx_bound(unit.x as int, accel as int, 1000, COORD_LIMIT as int);
        lemma_mulfx_bound(unit.y as int, accel as int, 1000, COORD_LIMIT as int);
    }
    Vec2Fx { x: mulfx(unit.x, accel), y: mulfx(unit.y, accel) }
}

/// The acceleration a directional-thrust intent contributes: the supplied
/// unit (or zero) direction times the maximum self-acceleration.
pub fn thrust_acceleration(dir: Vec2Fx, accel: i64) -> (r: Vec2Fx)
    requires
        s_abs(dir.x as int) <= 1000,
        s_abs(dir.y as int) <= 1000,
        0 <= accel <= COORD_LIMIT,
    ensures
        r.x as int == s_mulfx(dir.x as int, accel as int),
        r.y as int == s_mulfx(dir.y as int, accel as int),
        s_abs(r.x as int) <= COORD_LIMIT,
        s_abs(r.y as int) <= COORD_LIMIT,
{
    proof {
        lemma_mulfx_bound(dir.x as int, accel as int, 1000, COORD_LIMIT as int);
        lemma_mulfx_bound(dir.y as int, accel as int, 1000, COORD_LIMIT as int);
    }
    Vec2Fx { x: mulfx(dir.x, accel), y: mulfx(dir.y, accel) }
}

/// The quadratic-drag dampening contribution: half the fluid density times
/// the squared speed times the cross-section times the drag coefficient,
/// divided by the mass.
pub open spec fn s_drag(vel: Vec2Fx, mass: int, cross: int, coeff: int, density: int) -> int {
    let lsq = s_tdiv(s_sq_len(vel), 1000);
    let t1 = s_mulfx(density, lsq);
    let t2 = s_mulfx(t1, cross);
    let t3 = s_mulfx(t2, coeff);
    let force = s_half(t3);
    s_tdiv(force * 1000, mass)
}

/// The dampening acceleration that symmetric quadratic drag contributes.
pub fn drag_acceleration(vel: Vec2Fx, mass: i64, cross: i64, coeff: i64, density: i64) -> (r: i64)
    requires
        s_abs(vel.x as int) <= 10_000_000,
        s_abs(vel.y as int) <= 10_000_000,
        1000 <= mass,
        0 <= cross <= 1_000_000,
        0 <= coeff <= 10_000,
        0 <= density <= 1_000_000,
    ensures
        r as int == s_drag(vel, mass as int, cross as int, coeff as int, density as int),
        0 <= r <= 1_000_000_000_000_000_000,
{
    proof {
        lemma_square_nonneg(vel.x as int);
        lemma_square_nonneg(vel.y as int);
        lemma_square_le(s_abs(vel.x as int), 10_000_000);
        lemma_square_le(s_abs(vel.y as int), 10_000_000);
    }
    let mx: u128 = if vel.x >= 0 {
        vel.x as u128
    } else {
        (-(vel.x as i128)) as u128
    };
    let my: u128 = if vel.y >= 0 {
        vel.y as u128
    } else {
        (-(vel.y as i128)) as u128
    };
    proof {
        lemma_mag_product_bound(mx as int, mx as int, 10_000_000, 10_000_000);
        lemma_mag_product_bound(my as int, my as int, 10_000_000, 10_000_000);
        lemma_square_nonneg(mx as int);
        lemma_square_nonneg(my as int);
    }
    let sq: u128 = mx * mx + my * my;
    proof {
        assert(sq as int == s_sq_len(vel));
        vstd::arithmetic::div_mod::lemma_div_is_ordered(sq as int, 200_000_000_000_000, 1000);
        vstd::arithmetic::div_mod::lemma_div_pos_is_pos(sq as int, 1000);
    }
    let lsq: u128 = sq / 1000;
    proof {
        lemma_scaled_product(density as int, lsq as int, 1_000_000, 200_000_000_000);
    }
    let t1: u128 = (density as u128) * lsq / 1000;
    proof {
        lemma_scaled_product(t1 as int, cross as int, 200_000_000_000_000, 1_000_000);
    }
    let t2: u128 = t1 * (cross as u128) / 1000;
    proof {
        lemma_scaled_product(t2 as int, coeff as int, 200_000_000_000_000_000, 10_000);
    }
    let t3: u128 = t2 * (coeff as u128) / 1000;
    let force: u128 = t3 / 2;
    proof {
        vstd::arithmetic::div_mod::lemma_div_is_ordered(t3 as int, 2_000_000_000_000_000_000, 2);
        vstd::arithmetic::div_mod::lemma_div_pos_is_pos(t3 as int, 2);
        lemma_mag_product_bound(force as int, 1000, 1_000_000_000_000_000_000, 1000);
        lemma_mul_sign(force as int, 1000);
        vstd::arithmetic::div_mod::lemma_div_is_ordered(
            (force as int) * 1000,
            1_000_000_000_000_000_000_000,
            mass as int,
        );
        vstd::arithmetic::div_mod::lemma_div_is_ordered_by_denominator(
            1_000_000_000_000_000_000_000,
            1000,
            mass as int,
        );
        vstd::arithmetic::div_mod::lemma_div_pos_is_pos((force as int) * 1000, mass as int);
    }
    let r: u128 = force * 1000 / (mass as u128);
    r as i64
}

/// A truncating scale-down step of the drag chain: on non-negative values
/// it is the fixed-point product, and bounds carry through.
proof fn lemma_scaled_product(a: int, b: int, ba: int, bb: int)
    requires
        0 <= a <= ba,
        0 <= b <= bb,
    ensures
        0 <= a * b <= ba * bb,
        a * b / 1000 == s_mulfx(a, b),
        0 <= a * b / 1000 <= ba * bb / 1000,
{
    lemma_mag_product_bound(a, b, ba, bb);
    lemma_mul_sign(a, b);
    vstd::arithmetic::div_mod::lemma_div_is_ordered(a * b, ba * bb, 1000);
    vstd::arithmetic::div_mod::lemma_div_pos_is_pos(a * b, 1000);
}

/// One movable entity: position and velocity, the two accumulators, and the
/// optional intent capabilities, stored as a sparse set of optional fields.
/// `position_changed` records whether the last integration moved the entity;
/// the follow resolver reads it off the target.
#[derive(Debug, Clone, Copy, PartialEq, Eq, Structural)]
pub struct Mover {
    pub position: Position,
    pub velocity: Velocity,
    pub acceleration: Option<Acceleration>,
    pub dampening: Option<Dampening>,
    pub mass: Mass,
    pub self_moving: Option<SelfMoving>,
    pub decelerating: Option<Decelerating>,
    pub moving_to: Option<MovingTo>,
    pub following: Option<Following>,
    pub moving_in: Option<MovingIn>,
    pub cross_section_size: Option<CrossSectionSize>,
    pub experience_drag: Option<ExperienceDrag>,
    pub position_changed: bool,
}

/// The configured (non-accumulator) fields lie within the machine bounds
/// the pipeline needs.
pub open spec fn conf_ok(m: Mover) -> bool {
    &&& s_abs(m.position.0.x as int) <= COORD_LIMIT
    &&& s_abs(m.position.0.y as int) <= COORD_LIMIT
    &&& s_abs(m.velocity.0.x as int) <= COORD_LIMIT
    &&& s_abs(m.velocity.0.y as int) <= COORD_LIMIT
    &&& 1000 <= m.mass.0 <= COORD_LIMIT
    &&& (m.self_moving is Some ==> 0 <= m.self_moving->0.accel <= COORD_LIMIT)
    &&& (m.moving_to is Some ==> s_abs(m.moving_to->0.dest.x as int) <= COORD_LIMIT && s_abs(
        m.moving_to->0.dest.y as int,
    ) <= COORD_LIMIT)
    &&& (m.moving_in is Some ==> s_abs(m.moving_in->0.dir.x as int) <= 1000 && s_abs(
        m.moving_in->0.dir.y as int,
    ) <= 1000)
    &&& (m.cross_section_size is Some ==> 0 <= (m.cross_section_size->0).0 <= 1_000_000)
    &&& (m.experience_drag is Some ==> 0 <= m.experience_drag->0.coeff <= 10_000)
}

/// The brake resolver applies: the entity can dampen, can self-move, and
/// holds a decelerate intent.
pub open spec fn brakes(m: Mover) -> bool {
    m.dampening is Some && m.self_moving is Some && m.decelerating is Some
}

/// The drag resolver applies: the entity can dampen and exposes a symmetric
/// cross-section and a drag coefficient.
pub open spec fn drags(m: Mover) -> bool {
    m.dampening is Some && m.cross_section_size is Some && m.experience_drag is Some
}

/// The seek resolver applies: the entity accumulates acceleration, can
/// self-move, and holds a destination.
pub open spec fn seeks(m: Mover) -> bool {
    m.acceleration is Some && m.self_moving is Some && m.moving_to is Some
}

/// The thrust resolver applies: the entity accumulates acceleration, can
/// self-move, and holds a direction.
pub open spec fn thrusts(m: Mover) -> bool {
    m.acceleration is Some && m.self_moving is Some && m.moving_in is Some
}

/// What the brake resolver does to one entity: it adds the maximum
/// self-acceleration to the dampening accumulator; entities without the
/// intent are untouched.
pub open spec fn decel_step(pre: Mover, post: Mover) -> bool {
    if brakes(pre) {
        post == (Mover {
            dampening: Some(
                Dampening { max_acc: (pre.dampening->0.max_acc + pre.self_moving->0.accel) as i64 },
            ),
            ..pre
        })
    } else {
        post == pre
    }
}

/// What the drag resolver does to one entity: it adds the quadratic-drag
/// acceleration to the dampening accumulator.
pub open spec fn drag_step(pre: Mover, post: Mover, density: int) -> bool {
    if drags(pre) {
        post == (Mover {
            dampening: Some(
                Dampening {
                    max_acc: (pre.dampening->0.max_acc + s_drag(
                        pre.velocity.0,
                        pre.mass.0 as int,
                        (pre.cross_section_size->0).0 as int,
                        pre.experience_drag->0.coeff as int,
                        density,
                    )) as i64,
                },
            ),
            ..pre
        })
    } else {
        post == pre
    }
}

/// What the follow resolver does to entity `i`: when its target is a live
/// entity whose position changed last tick, the seek destination becomes the
/// target's current position; otherwise the entity is untouched.
pub open spec fn follow_step(pre: Seq<Mover>, i: int, post: Mover) -> bool {
    let m = pre[i];
    if m.moving_to is Some && m.following is Some && m.following->0.target < pre.len() && pre[
        m.following->0.target as int
    ].position_changed {
        post == (Mover {
            moving_to: Some(MovingTo { dest: pre[m.following->0.target as int].position.0 }),
            ..m
        })
    } else {
        post == m
    }
}

/// What the seek resolver does to one entity: it adds the seek contribution
/// to the acceleration accumulator.
pub open spec fn seek_step(pre: Mover, post: Mover) -> bool {
    if seeks(pre) {
        let a = (pre.acceleration->0).0;
        post == (Mover {
            acceleration: Some(
                Acceleration(
                    Vec2Fx {
                        x: (a.x + s_seek_x(
                            pre.position.0,
                            pre.moving_to->0.dest,
                            pre.self_moving->0.accel as int,
                        )) as i64,
                        y: (a.y + s_seek_y(
                            pre.position.0,
                            pre.moving_to->0.dest,
                            pre.self_moving->0.accel as int,
                        )) as i64,
                    },
                ),
            ),
            ..pre
        })
    } else {
        post == pre
    }
}

/// What the thrust resolver does to one entity: it adds the directional
/// contribution to the acceleration accumulator.
pub open spec fn thrust_step(pre: Mover, post: Mover) -> bool {
    if thrusts(pre) {
        let a = (pre.acceleration->0).0;
        post == (Mover {
            acceleration: Some(
                Acceleration(
                    Vec2Fx {
                        x: (a.x + s_mulfx(
                            pre.moving_in->0.dir.x as int,
                            pre.self_moving->0.accel as int,
                        )) as i64,
                        y: (a.y + s_mulfx(
                            pre.moving_in->0.dir.y as int,
                            pre.self_moving->0.accel as int,
                        )) as i64,
                    },
                ),
            ),
            ..pre
        })
    } else {
        post == pre
    }
}

/// What the integrator does to one entity carrying an acceleration
/// accumulator: position and velocity advance by the spec-level step, both
/// accumulators drain, and the change flag records whether the position
/// moved. Entities without the accumulator are untouched here.
pub open spec fn integrate_step(pre: Mover, post: Mover, dt: int) -> bool {
    if pre.acceleration is Some {
        let vel = pre.velocity.0;
        let acc = (pre.acceleration->0).0;
        let mda = if pre.dampening is Some {
            pre.dampening->0.max_acc as int
        } else {
            0
        };
        let dpx = s_dp_x(vel, acc, mda, dt);
        let dpy = s_dp_y(vel, acc, mda, dt);
        let dvx = s_dv_x(vel, acc, mda, dt);
        let dvy = s_dv_y(vel, acc, mda, dt);
        post == (Mover {
            position: Position(
                Vec2Fx { x: (pre.position.0.x + dpx) as i64, y: (pre.position.0.y + dpy) as i64 },
            ),
            velocity: Velocity(Vec2Fx { x: (vel.x + dvx) as i64, y: (vel.y + dvy) as i64 }),
            acceleration: Some(Acceleration(Vec2Fx { x: 0, y: 0 })),
            dampening: if pre.dampening is Some {
                Some(Dampening { max_acc: 0 })
            } else {
                None
            },
            position_changed: dpx != 0 || dpy != 0,
            ..pre
        })
    } else {
        post == pre
    }
}

/// What the drift path does to one entity without an acceleration
/// accumulator: the position moves by exactly the velocity times the tick
/// length. Accelerating entities are untouched here.
pub open spec fn movement_step(pre: Mover, post: Mover, dt: int) -> bool {
    if pre.acceleration is None {
        let dpx = s_mulfx(pre.velocity.0.x as int, dt);
        let dpy = s_mulfx(pre.velocity.0.y as int, dt);
        post == (Mover {
            position: Position(
                Vec2Fx { x: (pre.position.0.x + dpx) as i64, y: (pre.position.0.y + dpy) as i64 },
            ),
            position_changed: dpx != 0 || dpy != 0,
            ..pre
        })
    } else {
        post == pre
    }
}

/// The brake resolver over a whole world.
pub open spec fn decelerate_rel(pre: Seq<Mover>, post: Seq<Mover>) -> bool {
    post.len() == pre.len() && forall|i: int|
        0 <= i < pre.len() ==> decel_step(pre[i], #[trigger] post[i])
}

/// The drag resolver over a whole world.
pub open spec fn drag_rel(pre: Seq<Mover>, post: Seq<Mover>, density: int) -> bool {
    post.len() == pre.len() && forall|i: int|
        0 <= i < pre.len() ==> drag_step(pre[i], #[trigger] post[i], density)
}

/// The follow resolver over a whole world.
pub open spec fn follow_rel(pre: Seq<Mover>, post: Seq<Mover>) -> bool {
    post.len() == pre.len() && forall|i: int|
        0 <= i < pre.len() ==> follow_step(pre, i, #[trigger] post[i])
}

/// The seek resolver over a whole world.
pub open spec fn seek_rel(pre: Seq<Mover>, post: Seq<Mover>) -> bool {
    post.len() == pre.len() && forall|i: int|
        0 <= i < pre.len() ==> seek_step(pre[i], #[trigger] post[i])
}

/// The thrust resolver over a whole world.
pub open spec fn thrust_rel(pre: Seq<Mover>, post: Seq<Mover>) -> bool {
    post.len() == pre.len() && forall|i: int|
        0 <= i < pre.len() ==> thrust_step(pre[i], #[trigger] post[i])
}

/// The integrator over a whole world.
pub open spec fn integrate_rel(pre: Seq<Mover>, post: Seq<Mover>, dt: int) -> bool {
    post.len() == pre.len() && forall|i: int|
        0 <= i < pre.len() ==> integrate_step(pre[i], #[trigger] post[i], dt)
}

/// The drift path over a whole world.
pub open spec fn movement_rel(pre: Seq<Mover>, post: Seq<Mover>, dt: int) -> bool {
    post.len() == pre.len() && forall|i: int|
        0 <= i < pre.len() ==> movement_step(pre[i], #[trigger] post[i], dt)
}

/// What the brake resolver needs of one entity: room in the dampening
/// accumulator for the coming contribution.
pub open spec fn decel_pre(m: Mover) -> bool {
    brakes(m) ==> 0 <= m.dampening->0.max_acc && 0 <= m.self_moving->0.accel
        && m.dampening->0.max_acc + m.self_moving->0.accel <= ACCUM_LIMIT
}

/// What the drag resolver needs of one entity: drag inputs within the
/// machine bounds and room in the dampening accumulator.
pub open spec fn drag_pre(m: Mover, density: int) -> bool {
    drags(m) ==> {
        &&& s_abs(m.velocity.0.x as int) <= 10_000_000
        &&& s_abs(m.velocity.0.y as int) <= 10_000_000
        &&& 1000 <= m.mass.0
        &&& 0 <= (m.cross_section_size->0).0 <= 1_000_000
        &&& 0 <= m.experience_drag->0.coeff <= 10_000
        &&& 0 <= m.dampening->0.max_acc
        &&& m.dampening->0.max_acc + s_drag(
            m.velocity.0,
            m.mass.0 as int,
            (m.cross_section_size->0).0 as int,
            m.experience_drag->0.coeff as int,
            density,
        ) <= ACCUM_LIMIT
    }
}

/// What the seek resolver needs of one entity: bounded position,
/// destination and propulsion, and room in the acceleration accumulator.
pub open spec fn seek_pre(m: Mover) -> bool {
    seeks(m) ==> {
        &&& s_abs(m.position.0.x as int) <= COORD_LIMIT
        &&& s_abs(m.position.0.y as int) <= COORD_LIMIT
        &&& s_abs(m.moving_to->0.dest.x as int) <= COORD_LIMIT
        &&& s_abs(m.moving_to->0.dest.y as int) <= COORD_LIMIT
        &&& 0 <= m.self_moving->0.accel <= COORD_LIMIT
        &&& s_abs((m.acceleration->0).0.x as int) <= ACCUM_LIMIT - COORD_LIMIT
        &&& s_abs((m.acceleration->0).0.y as int) <= ACCUM_LIMIT - COORD_LIMIT
    }
}

/// What the thrust resolver needs of one entity: a unit (or zero)
/// direction, bounded propulsion, and room in the acceleration accumulator.
pub open spec fn thrust_pre(m: Mover) -> bool {
    thrusts(m) ==> {
        &&& s_abs(m.moving_in->0.dir.x as int) <= 1000
        &&& s_abs(m.moving_in->0.dir.y as int) <= 1000
        &&& 0 <= m.self_moving->0.accel <= COORD_LIMIT
        &&& s_abs((m.acceleration->0).0.x as int) <= ACCUM_LIMIT - COORD_LIMIT
        &&& s_abs((m.acceleration->0).0.y as int) <= ACCUM_LIMIT - COORD_LIMIT
    }
}

/// What the integrator needs of one accelerating entity: bounded position,
/// velocity and accumulators.
pub open spec fn integrate_pre(m: Mover) -> bool {
    m.acceleration is Some ==> {
        &&& s_abs(m.position.0.x as int) <= COORD_LIMIT
        &&& s_abs(m.position.0.y as int) <= COORD_LIMIT
        &&& s_abs(m.velocity.0.x as int) <= COORD_LIMIT
        &&& s_abs(m.velocity.0.y as int) <= COORD_LIMIT
        &&& s_abs((m.acceleration->0).0.x as int) <= ACCUM_LIMIT
        &&& s_abs((m.acceleration->0).0.y as int) <= ACCUM_LIMIT
        &&& (m.dampening is Some ==> 0 <= m.dampening->0.max_acc <= ACCUM_LIMIT)
    }
}

/// What the drift path needs of one non-accelerating entity: bounded
/// position and velocity.
pub open spec fn movement_pre(m: Mover) -> bool {
    m.acceleration is None ==> {
        &&& s_abs(m.position.0.x as int) <= COORD_LIMIT
        &&& s_abs(m.position.0.y as int) <= COORD_LIMIT
        &&& s_abs(m.velocity.0.x as int) <= COORD_LIMIT
        &&& s_abs(m.velocity.0.y as int) <= COORD_LIMIT
    }
}

/// The brake resolver: every decelerating, self-moving entity with a
/// dampening accumulator requests its full self-acceleration as speed
/// reduction.
pub fn update_decelerating(movers: &mut Vec<Mover>)
    requires
        forall|i: int| 0 <= i < old(movers)@.len() ==> decel_pre(#[trigger] old(movers)@[i]),
    ensures
        decelerate_rel(old(movers)@, final(movers)@),
{
    let n: usize = movers.len();
    let mut idx: usize = 0;
    while idx < n
        invariant
            n == movers@.len(),
            movers@.len() == old(movers)@.len(),
            forall|i: int| 0 <= i < old(movers)@.len() ==> decel_pre(#[trigger] old(movers)@[i]),
            forall|i: int| idx <= i < n ==> movers@[i] == old(movers)@[i],
            forall|i: int| 0 <= i < idx ==> decel_step(old(movers)@[i], #[trigger] movers@[i]),
        decreases n - idx,
    {
        let m: Mover = movers[idx];
        match (m.dampening, m.self_moving, m.decelerating) {
            (Some(d), Some(sm), Some(_)) => {
                let mut damp: Dampening = d;
                damp.accumulate(sm.accel);
                movers[idx] = Mover { dampening: Some(damp), ..m };
            },
            _ => {},
        }
        idx += 1;
    }
}

/// The drag resolver: every symmetric entity exposed to drag requests a
/// quadratic-drag speed reduction.
pub fn update_drag_symmetric(movers: &mut Vec<Mover>, fluid_density: FluidDensity)
    requires
        0 <= fluid_density.0 <= 1_000_000,
        forall|i: int|
            0 <= i < old(movers)@.len() ==> drag_pre(
                #[trigger] old(movers)@[i],
                fluid_density.0 as int,
            ),
    ensures
        drag_rel(old(movers)@, final(movers)@, fluid_density.0 as int),
{
    let n: usize = movers.len();
    let mut idx: usize = 0;
    while idx < n
        invariant
            n == movers@.len(),
            movers@.len() == old(movers)@.len(),
            0 <= fluid_density.0 <= 1_000_000,
            forall|i: int|
                0 <= i < old(movers)@.len() ==> drag_pre(
                    #[trigger] old(movers)@[i],
                    fluid_density.0 as int,
                ),
            forall|i: int| idx <= i < n ==> movers@[i] == old(movers)@[i],
            forall|i: int|
                0 <= i < idx ==> drag_step(
                    old(movers)@[i],
                    #[trigger] movers@[i],
                    fluid_density.0 as int,
                ),
        decreases n - idx,
    {
        let m: Mover = movers[idx];
        match (m.dampening, m.cross_section_size, m.experience_drag) {
            (Some(d), Some(cross), Some(drag)) => {
                let accel: i64 = drag_acceleration(
                    m.velocity.0,
                    m.mass.0,
                    cross.0,
                    drag.coeff,
                    fluid_density.0,
                );
                let mut damp: Dampening = d;
                damp.accumulate(accel);
                movers[idx] = Mover { dampening: Some(damp), ..m };
            },
            _ => {},
        }
        idx += 1;
    }
}

/// The follow resolver: every following entity whose target is live and
/// moved last tick refreshes its seek destination from the target's current
/// position. It runs before the seek resolver.
pub fn update_following(movers: &mut Vec<Mover>)
    ensures
        follow_rel(old(movers)@, final(movers)@),
{
    let n: usize = movers.len();
    let mut idx: usize = 0;
    while idx < n
        invariant
            n == movers@.len(),
            movers@.len() == old(movers)@.len(),
            forall|i: int|
                0 <= i < n ==> #[trigger] movers@[i] == (Mover {
                    moving_to: movers@[i].moving_to,
                    ..old(movers)@[i]
                }),
            forall|i: int| idx <= i < n ==> movers@[i] == old(movers)@[i],
            forall|i: int|
                0 <= i < idx ==> follow_step(old(movers)@, i, #[trigger] movers@[i]),
        decreases n - idx,
    {
        let m: Mover = movers[idx];
        match (m.moving_to, m.following) {
            (Some(_), Some(f)) => {
                if f.target < n {
                    let tgt: Mover = movers[f.target];
                    if tgt.position_changed {
                        movers[idx] = Mover { moving_to: Some(MovingTo { dest: tgt.position.0 }), ..m };
                    }
                }
            },
            _ => {},
        }
        idx += 1;
    }
}

/// The seek resolver: every self-moving entity with a destination pushes an
/// acceleration toward it.
pub fn update_moving_to_dest(movers: &mut Vec<Mover>)
    requires
        forall|i: int| 0 <= i < old(movers)@.len() ==> seek_pre(#[trigger] old(movers)@[i]),
    ensures
        seek_rel(old(movers)@, final(movers)@),
{
    let n: usize = movers.len();
    let mut idx: usize = 0;
    while idx < n
        invariant
            n == movers@.len(),
            movers@.len() == old(movers)@.len(),
            forall|i: int| 0 <= i < old(movers)@.len() ==> seek_pre(#[trigger] old(movers)@[i]),
            forall|i: int| idx <= i < n ==> movers@[i] == old(movers)@[i],
            forall|i: int| 0 <= i < idx ==> seek_step(old(movers)@[i], #[trigger] movers@[i]),
        decreases n - idx,
    {
        let m: Mover = movers[idx];
        match (m.acceleration, m.self_moving, m.moving_to) {
            (Some(a), Some(sm), Some(mt)) => {
                let da: Vec2Fx = seek_acceleration(m.position.0, mt.dest, sm.accel);
                let mut acc: Acceleration = a;
                acc.accumulate(da);
                movers[idx] = Mover { acceleration: Some(acc), ..m };
            },
            _ => {},
        }
        idx += 1;
    }
}

/// The thrust resolver: every self-moving entity with a direction pushes an
/// acceleration along it.
pub fn update_moving_in_dir(movers: &mut Vec<Mover>)
    requires
        forall|i: int| 0 <= i < old(movers)@.len() ==> thrust_pre(#[trigger] old(movers)@[i]),
    ensures
        thrust_rel(old(movers)@, final(movers)@),
{
    let n: usize = movers.len();
    let mut idx: usize = 0;
    while idx < n
        invariant
            n == movers@.len(),
            movers@.len() == old(movers)@.len(),
            forall|i: int| 0 <= i < old(movers)@.len() ==> thrust_pre(#[trigger] old(movers)@[i]),
            forall|i: int| idx <= i < n ==> movers@[i] == old(movers)@[i],
            forall|i: int| 0 <= i < idx ==> thrust_step(old(movers)@[i], #[trigger] movers@[i]),
        decreases n - idx,
    {
        let m: Mover = movers[idx];
        match (m.acceleration, m.self_moving, m.moving_in) {
            (Some(a), Some(sm), Some(mi)) => {
                let da: Vec2Fx = thrust_acceleration(mi.dir, sm.accel);
                let mut acc: Acceleration = a;
                acc.accumulate(da);
                movers[idx] = Mover { acceleration: Some(acc), ..m };
            },
            _ => {},
        }
        idx += 1;
    }
}

/// The integrator: every entity with an acceleration accumulator advances
/// position and velocity under constant acceleration over the tick, with
/// dampening applied first, and both accumulators drain, unconditionally.
pub fn update_kinematic(movers: &mut Vec<Mover>, dt: i64)
    requires
        0 <= dt <= DT_LIMIT,
        forall|i: int| 0 <= i < old(movers)@.len() ==> integrate_pre(#[trigger] old(movers)@[i]),
    ensures
        integrate_rel(old(movers)@, final(movers)@, dt as int),
{
    let n: usize = movers.len();
    let mut idx: usize = 0;
    while idx < n
        invariant
            n == movers@.len(),
            movers@.len() == old(movers)@.len(),
            0 <= dt <= DT_LIMIT,
            forall|i: int|
                0 <= i < old(movers)@.len() ==> integrate_pre(#[trigger] old(movers)@[i]),
            forall|i: int| idx <= i < n ==> movers@[i] == old(movers)@[i],
            forall|i: int|
                0 <= i < idx ==> integrate_step(old(movers)@[i], #[trigger] movers@[i], dt as int),
        decreases n - idx,
    {
        let m: Mover = movers[idx];
        match m.acceleration {
            Some(a) => {
                let max_damp_acc: i64 = match m.dampening {
                    Some(d) => d.max_acc,
                    None => 0,
                };
                let (npos, nvel) = integrate_motion(
                    m.position.0,
                    m.velocity.0,
                    a.0,
                    max_damp_acc,
                    dt,
                );
                let changed: bool = npos.x != m.position.0.x || npos.y != m.position.0.y;
                let ndamp: Option<Dampening> = match m.dampening {
                    Some(_) => Some(Dampening { max_acc: 0 }),
                    None => None,
                };
                movers[idx] = Mover {
                    position: Position(npos),
                    velocity: Velocity(nvel),
                    acceleration: Some(Acceleration(Vec2Fx { x: 0, y: 0 })),
                    dampening: ndamp,
                    position_changed: changed,
                    ..m
                };
            },
            None => {},
        }
        idx += 1;
    }
}

/// The drift path: every entity without an acceleration accumulator moves
/// by exactly its velocity times the tick length. The two paths run on
/// disjoint entity sets.
pub fn update_movement(movers: &mut Vec<Mover>, dt: i64)
    requires
        0 <= dt <= DT_LIMIT,
        forall|i: int| 0 <= i < old(movers)@.len() ==> movement_pre(#[trigger] old(movers)@[i]),
    ensures
        movement_rel(old(movers)@, final(movers)@, dt as int),
{
    let n: usize = movers.len();
    let mut idx: usize = 0;
    while idx < n
        invariant
            n == movers@.len(),
            movers@.len() == old(movers)@.len(),
            0 <= dt <= DT_LIMIT,
            forall|i: int|
                0 <= i < old(movers)@.len() ==> movement_pre(#[trigger] old(movers)@[i]),
            forall|i: int| idx <= i < n ==> movers@[i] == old(movers)@[i],
            forall|i: int|
                0 <= i < idx ==> movement_step(old(movers)@[i], #[trigger] movers@[i], dt as int),
        decreases n - idx,
    {
        let m: Mover = movers[idx];
        match m.acceleration {
            None => {
                let npos: Vec2Fx = drift_step(m.position.0, m.velocity.0, dt);
                let changed: bool = npos.x != m.position.0.x || npos.y != m.position.0.y;
                movers[idx] = Mover {
                    position: Position(npos),
                    position_changed: changed,
                    ..m
                };
            },
            Some(_) => {},
        }
        idx += 1;
    }
}

/// The component set of a fully kinematic entity without a symmetric
/// cross-section.
#[derive(Debug, Clone, Copy, PartialEq, Eq, Structural)]
pub struct FullKinematic {
    pub position: Position,
    pub velocity: Velocity,
    pub acceleration: Acceleration,
    pub dampening: Dampening,
    pub mass: Mass,
    pub experience_drag: ExperienceDrag,
}

impl Default for FullKinematic {
    /// At rest at the origin, with nothing accumulated, unit mass and unit
    /// drag coefficient.
    fn default() -> (r: FullKinematic)
        ensures
            r == (FullKinematic {
                position: Position(Vec2Fx { x: 0, y: 0 }),
                velocity: Velocity(Vec2Fx { x: 0, y: 0 }),
                acceleration: Acceleration(Vec2Fx { x: 0, y: 0 }),
                dampening: Dampening { max_acc: 0 },
                mass: Mass(1000),
                experience_drag: ExperienceDrag { coeff: 1000 },
            }),
    {
        FullKinematic {
            position: Position(Vec2Fx { x: 0, y: 0 }),
            velocity: Velocity(Vec2Fx { x: 0, y: 0 }),
            acceleration: Acceleration(Vec2Fx { x: 0, y: 0 }),
            dampening: Dampening { max_acc: 0 },
            mass: Mass(1000),
            experience_drag: ExperienceDrag { coeff: 1000 },
        }
    }
}

impl FullKinematic {
    /// The entity record these components spawn: no intents attached yet,
    /// and no cross-section, so drag does not apply.
    pub fn mover(self) -> (r: Mover)
        ensures
            r == (Mover {
                position: self.position,
                velocity: self.velocity,
                acceleration: Some(self.acceleration),
                dampening: Some(self.dampening),
                mass: self.mass,
                self_moving: None,
                decelerating: None,
                moving_to: None,
                following: None,
                moving_in: None,
                cross_section_size: None,
                experience_drag: Some(self.experience_drag),
                position_changed: false,
            }),
    {
        Mover {
            position: self.position,
            velocity: self.velocity,
            acceleration: Some(self.acceleration),
            dampening: Some(self.dampening),
            mass: self.mass,
            self_moving: None,
            decelerating: None,
            moving_to: None,
            following: None,
            moving_in: None,
            cross_section_size: None,
            experience_drag: Some(self.experience_drag),
            position_changed: false,
        }
    }
}

/// The component set of a fully kinematic entity whose cross-section is the
/// same in all directions, so that symmetric drag applies.
#[derive(Debug, Clone, Copy, PartialEq, Eq, Structural)]
pub struct SymmeticFullKinematic {
    pub position: Position,
    pub velocity: Velocity,
    pub acceleration: Acceleration,
    pub dampening: Dampening,
    pub mass: Mass,
    pub cross_section_size: CrossSectionSize,
    pub experience_drag: ExperienceDrag,
}

impl Default for SymmeticFullKinematic {
    /// At rest at the origin, with nothing accumulated, unit mass,
    /// cross-section and drag coefficient.
    fn default() -> (r: SymmeticFullKinematic)
        ensures
            r == (SymmeticFullKinematic {
                position: Position(Vec2Fx { x: 0, y: 0 }),
                velocity: Velocity(Vec2Fx { x: 0, y: 0 }),
                acceleration: Acceleration(Vec2Fx { x: 0, y: 0 }),
                dampening: Dampening { max_acc: 0 },
                mass: Mass(1000),
                cross_section_size: CrossSectionSize(1000),
                experience_drag: ExperienceDrag { coeff: 1000 },
            }),
    {
        SymmeticFullKinematic {
            position: Position(Vec2Fx { x: 0, y: 0 }),
            velocity: Velocity(Vec2Fx { x: 0, y: 0 }),
            acceleration: Acceleration(Vec2Fx { x: 0, y: 0 }),
            dampening: Dampening { max_acc: 0 },
            mass: Mass(1000),
            cross_section_size: CrossSectionSize(1000),
            experience_drag: ExperienceDrag { coeff: 1000 },
        }
    }
}

impl SymmeticFullKinematic {
    /// The entity record these components spawn: no intents attached yet,
    /// with symmetric drag applying.
    pub fn mover(self) -> (r: Mover)
        ensures
            r == (Mover {
                position: self.position,
                velocity: self.velocity,
                acceleration: Some(self.acceleration),
                dampening: Some(self.dampening),
                mass: self.mass,
                self_moving: None,
                decelerating: None,
                moving_to: None,
                following: None,
                moving_in: None,
                cross_section_size: Some(self.cross_section_size),
                experience_drag: Some(self.experience_drag),
                position_changed: false,
            }),
    {
        Mover {
            position: self.position,
            velocity: self.velocity,
            acceleration: Some(self.acceleration),
            dampening: Some(self.dampening),
            mass: self.mass,
            self_moving: None,
            decelerating: None,
            moving_to: None,
            following: None,
            moving_in: None,
            cross_section_size: Some(self.cross_section_size),
            experience_drag: Some(self.experience_drag),
            position_changed: false,
        }
    }
}

/// The brake contribution the coming tick will add to the dampening
/// accumulator.
pub open spec fn brake_add(m: Mover) -> int {
    if brakes(m) {
        m.self_moving->0.accel as int
    } else {
        0
    }
}

/// The drag contribution the coming tick will add to the dampening
/// accumulator.
pub open spec fn drag_add(m: Mover, density: int) -> int {
    if drags(m) {
        s_drag(
            m.velocity.0,
            m.mass.0 as int,
            (m.cross_section_size->0).0 as int,
            m.experience_drag->0.coeff as int,
            density,
        )
    } else {
        0
    }
}

/// What one whole tick needs of one entity: configured fields in bounds,
/// and room in both accumulators for this tick's contributions.
pub open spec fn tick_pre(m: Mover, density: int) -> bool {
    &&& conf_ok(m)
    &&& (m.acceleration is Some ==> s_abs((m.acceleration->0).0.x as int)
        <= 2_000_000_000_000_000 && s_abs((m.acceleration->0).0.y as int)
        <= 2_000_000_000_000_000)
    &&& (m.dampening is Some ==> 0 <= m.dampening->0.max_acc && m.dampening->0.max_acc
        + brake_add(m) + drag_add(m, density) <= ACCUM_LIMIT)
    &&& (drags(m) ==> s_abs(m.velocity.0.x as int) <= 10_000_000 && s_abs(m.velocity.0.y as int)
        <= 10_000_000 && 0 <= drag_add(m, density))
}

/// One simulation tick: the intent resolvers run first — brake, drag, then
/// follow before seek, then thrust — and the integrator and the drift path
/// consume and clear the accumulators exactly once, each on its own
/// disjoint entity set.
pub fn tick(movers: &mut Vec<Mover>, fluid_density: FluidDensity, dt: i64)
    requires
        0 <= dt <= DT_LIMIT,
        0 <= fluid_density.0 <= 1_000_000,
        forall|i: int|
            0 <= i < old(movers)@.len() ==> tick_pre(
                #[trigger] old(movers)@[i],
                fluid_density.0 as int,
            ),
    ensures
        final(movers)@.len() == old(movers)@.len(),
        exists|s1: Seq<Mover>, s2: Seq<Mover>, s3: Seq<Mover>, s4: Seq<Mover>, s5: Seq<Mover>, s6: Seq<Mover>|
            {
                &&& #[trigger] decelerate_rel(old(movers)@, s1)
                &&& #[trigger] drag_rel(s1, s2, fluid_density.0 as int)
                &&& #[trigger] follow_rel(s2, s3)
                &&& #[trigger] seek_rel(s3, s4)
                &&& #[trigger] thrust_rel(s4, s5)
                &&& #[trigger] integrate_rel(s5, s6, dt as int)
                &&& movement_rel(s6, final(movers)@, dt as int)
            },
{
    let ghost density = fluid_density.0 as int;
    let ghost s0 = movers@;
    proof {
        assert forall|i: int| 0 <= i < s0.len() implies decel_pre(#[trigger] s0[i]) by {
            assert(tick_pre(s0[i], density));
        }
    }
    update_decelerating(movers);
    let ghost s1 = movers@;
    proof {
        assert forall|i: int| 0 <= i < s1.len() implies drag_pre(#[trigger] s1[i], density) by {
            assert(decel_step(s0[i], s1[i]));
            assert(tick_pre(s0[i], density));
        }
    }
    update_drag_symmetric(movers, fluid_density);
    let ghost s2 = movers@;
    update_following(movers);
    let ghost s3 = movers@;
    proof {
        assert forall|i: int| 0 <= i < s3.len() implies seek_pre(#[trigger] s3[i]) by {
            assert(decel_step(s0[i], s1[i]));
            assert(drag_step(s1[i], s2[i], density));
            assert(follow_step(s2, i, s3[i]));
            assert(tick_pre(s0[i], density));
            if s3[i].moving_to is Some && s2[i].following is Some && s2[i].following->0.target
                < s2.len() && s2[s2[i].following->0.target as int].position_changed {
                let t = s2[i].following->0.target as int;
                assert(decel_step(s0[t], s1[t]));
                assert(drag_step(s1[t], s2[t], density));
                assert(tick_pre(s0[t], density));
                assert(s2[t].position == s0[t].position);
            }
        }
    }
    update_moving_to_dest(movers);
    let ghost s4 = movers@;
    proof {
        assert forall|i: int| 0 <= i < s4.len() implies thrust_pre(#[trigger] s4[i]) by {
            assert(decel_step(s0[i], s1[i]));
            assert(drag_step(s1[i], s2[i], density));
            assert(follow_step(s2, i, s3[i]));
            assert(seek_step(s3[i], s4[i]));
            assert(tick_pre(s0[i], density));
            if seeks(s3[i]) {
                crate::fx::lemma_unit_bounds(s_to_dest(s3[i].position.0, s3[i].moving_to->0.dest));
                lemma_mulfx_bound(
                    s_unit_x(s_to_dest(s3[i].position.0, s3[i].moving_to->0.dest)),
                    s3[i].self_moving->0.accel as int,
                    1000,
                    COORD_LIMIT as int,
                );
                lemma_mulfx_bound(
                    s_unit_y(s_to_dest(s3[i].position.0, s3[i].moving_to->0.dest)),
                    s3[i].self_moving->0.accel as int,
                    1000,
                    COORD_LIMIT as int,
                );
            }
        }
    }
    update_moving_in_dir(movers);
    let ghost s5 = movers@;
    proof {
        assert forall|i: int| 0 <= i < s5.len() implies integrate_pre(#[trigger] s5[i]) by {
            assert(decel_step(s0[i], s1[i]));
            assert(drag_step(s1[i], s2[i], density));
            assert(follow_step(s2, i, s3[i]));
            assert(seek_step(s3[i], s4[i]));
            assert(thrust_step(s4[i], s5[i]));
            assert(tick_pre(s0[i], density));
            if seeks(s3[i]) {
                crate::fx::lemma_unit_bounds(s_to_dest(s3[i].position.0, s3[i].moving_to->0.dest));
                lemma_mulfx_bound(
                    s_unit_x(s_to_dest(s3[i].position.0, s3[i].moving_to->0.dest)),
                    s3[i].self_moving->0.accel as int,
                    1000,
                    COORD_LIMIT as int,
                );
                lemma_mulfx_bound(
                    s_unit_y(s_to_dest(s3[i].position.0, s3[i].moving_to->0.dest)),
                    s3[i].self_moving->0.accel as int,
                    1000,
                    COORD_LIMIT as int,
                );
            }
            if thrusts(s4[i]) {
                lemma_mulfx_bound(
                    s4[i].moving_in->0.dir.x as int,
                    s4[i].self_moving->0.accel as int,
                    1000,
                    COORD_LIMIT as int,
                );
                lemma_mulfx_bound(
                    s4[i].moving_in->0.dir.y as int,
                    s4[i].self_moving->0.accel as int,
                    1000,
                    COORD_LIMIT as int,
                );
            }
        }
    }
    update_kinematic(movers, dt);
    let ghost s6 = movers@;
    proof {
        assert forall|i: int| 0 <= i < s6.len() implies movement_pre(#[trigger] s6[i]) by {
            assert(decel_step(s0[i], s1[i]));
            assert(drag_step(s1[i], s2[i], density));
            assert(follow_step(s2, i, s3[i]));
            assert(seek_step(s3[i], s4[i]));
            assert(thrust_step(s4[i], s5[i]));
            assert(integrate_step(s5[i], s6[i], dt as int));
            assert(tick_pre(s0[i], density));
        }
    }
    update_movement(movers, dt);
    proof {
        assert(decelerate_rel(s0, s1) && drag_rel(s1, s2, density) && follow_rel(s2, s3)
            && seek_rel(s3, s4) && thrust_rel(s4, s5) && integrate_rel(s5, s6, dt as int)
            && movement_rel(s6, movers@, dt as int));
    }
}

/// An entity at rest with nothing accumulated is unchanged by one
/// integration step, whatever the tick length: with zero velocity, zero
/// accumulated acceleration and zero accumulated dampening, every position
/// and velocity delta of the step is zero.
pub proof fn lemma_integrator_rest(vel: Vec2Fx, acc: Vec2Fx, dt: int)
    requires
        vel.x == 0,
        vel.y == 0,
        acc.x == 0,
        acc.y == 0,
        0 <= dt,
    ensures
        s_dv_x(vel, acc, 0, dt) == 0,
        s_dv_y(vel, acc, 0, dt) == 0,
        s_dp_x(vel, acc, 0, dt) == 0,
        s_dp_y(vel, acc, 0, dt) == 0,
{
    lemma_isqrt(s_sq_len(vel));
    assert(s_len(vel) == 0) by (nonlinear_arith)
        requires
            is_isqrt(0, s_len(vel)),
            s_sq_len(vel) == 0,
    ;
    assert(s_mulfx(0, dt) == 0) by {
        lemma_tdiv_props(0 * dt, 1000);
    }
    assert(s_mulfx(dt, 0 + s_half(0)) == 0) by {
        lemma_tdiv_props(0, 2);
        lemma_tdiv_props(dt * 0, 1000);
    }
}

/// One dampened component: taken along the unit direction of the velocity
/// and clamped to the speed, the dampening delta never exceeds the
/// component it opposes, and it carries the component's own sign.
proof fn lemma_damp_component(c: int, len: int, ddv: int)
    requires
        len >= 1,
        0 <= ddv <= len,
        s_abs(c) <= len,
    ensures
        s_abs(s_mulfx(s_tdiv(c * 1000, len), ddv)) <= s_abs(c),
        c >= 0 ==> s_mulfx(s_tdiv(c * 1000, len), ddv) >= 0,
        c <= 0 ==> s_mulfx(s_tdiv(c * 1000, len), ddv) <= 0,
{
    let u = s_tdiv(c * 1000, len);
    lemma_mul_sign(c, 1000);
    lemma_tdiv_props(c * 1000, len);
    lemma_abs_mul(c, 1000);
    let mu = s_abs(u);
    assert(mu == (s_abs(c) * 1000) / len);
    lemma_mul_sign(u, ddv);
    lemma_tdiv_props(u * ddv, 1000);
    lemma_abs_mul(u, ddv);
    lemma_mag_product_bound(mu, ddv, mu, len);
    assert(mu * len <= s_abs(c) * 1000) by (nonlinear_arith)
        requires
            mu == (s_abs(c) * 1000) / len,
            len >= 1,
            s_abs(c) >= 0,
    ;
    assert(mu * ddv <= mu * len) by (nonlinear_arith)
        requires
            0 <= ddv <= len,
            0 <= mu,
    ;
    vstd::arithmetic::div_mod::lemma_div_is_ordered(mu * ddv, s_abs(c) * 1000, 1000);
    vstd::arithmetic::div_mod::lemma_div_multiples_vanish(s_abs(c), 1000);
    assert(1000 * s_abs(c) == s_abs(c) * 1000);
    assert(c <= 0 ==> u <= 0);
    assert(c <= 0 ==> u * ddv <= 0);
    assert(c <= 0 ==> s_tdiv(u * ddv, 1000) <= 0);
    assert(c >= 0 ==> u >= 0);
    assert(c >= 0 ==> u * ddv >= 0);
    assert(c >= 0 ==> s_tdiv(u * ddv, 1000) >= 0);
}

/// Dampening never reverses velocity: with no accumulated acceleration, one
/// integration step leaves each velocity component between zero and its old
/// value — the direction is preserved, or the component is fully damped to
/// zero, never flipped.
pub proof fn lemma_damp_never_reverses(vel: Vec2Fx, acc: Vec2Fx, mda: int, dt: int)
    requires
        acc.x == 0,
        acc.y == 0,
        0 <= mda,
        0 <= dt,
        s_abs(vel.x as int) <= COORD_LIMIT,
        s_abs(vel.y as int) <= COORD_LIMIT,
    ensures
        vel.x >= 0 ==> 0 <= vel.x + s_dv_x(vel, acc, mda, dt) <= vel.x,
        vel.x <= 0 ==> vel.x <= vel.x + s_dv_x(vel, acc, mda, dt) <= 0,
        vel.y >= 0 ==> 0 <= vel.y + s_dv_y(vel, acc, mda, dt) <= vel.y,
        vel.y <= 0 ==> vel.y <= vel.y + s_dv_y(vel, acc, mda, dt) <= 0,
        s_len(
            Vec2Fx {
                x: (vel.x + s_dv_x(vel, acc, mda, dt)) as i64,
                y: (vel.y + s_dv_y(vel, acc, mda, dt)) as i64,
            },
        ) <= s_len(vel),
{
    lemma_speed_bound(vel);
    lemma_mulfx_bound(mda, dt, mda, dt);
    assert(s_mulfx(0, dt) == 0) by {
        lemma_tdiv_props(0 * dt, 1000);
    }
    let ddv = s_damp_dv(vel, mda, dt);
    assert(0 <= ddv <= s_len(vel));
    if vel.x == 0 && vel.y == 0 {
        assert(s_mulfx(s_unit_x(vel), ddv) == 0) by {
            lemma_tdiv_props(0 * ddv, 1000);
        }
        assert(s_mulfx(s_unit_y(vel), ddv) == 0) by {
            lemma_tdiv_props(0 * ddv, 1000);
        }
    } else {
        crate::fx::lemma_unit_bounds(vel);
        crate::fx::lemma_len_bounds(vel);
        assert(s_sq_len(vel) >= 1) by (nonlinear_arith)
            requires
                !(vel.x == 0 && vel.y == 0),
                s_sq_len(vel) == vel.x * vel.x + vel.y * vel.y,
        ;
        lemma_isqrt(s_sq_len(vel));
        assert(s_len(vel) >= 1) by (nonlinear_arith)
            requires
                is_isqrt(s_sq_len(vel), s_len(vel)),
                s_sq_len(vel) >= 1,
        ;
        lemma_damp_component(vel.x as int, s_len(vel), ddv);
        lemma_damp_component(vel.y as int, s_len(vel), ddv);
    }
    let nv = (Vec2Fx {
        x: (vel.x + s_dv_x(vel, acc, mda, dt)) as i64,
        y: (vel.y + s_dv_y(vel, acc, mda, dt)) as i64,
    });
    assert(s_abs(nv.x as int) <= s_abs(vel.x as int));
    assert(s_abs(nv.y as int) <= s_abs(vel.y as int));
    lemma_square_nonneg(nv.x as int);
    lemma_square_nonneg(nv.y as int);
    lemma_square_nonneg(vel.x as int);
    lemma_square_nonneg(vel.y as int);
    lemma_square_le(s_abs(nv.x as int), s_abs(vel.x as int));
    lemma_square_le(s_abs(nv.y as int), s_abs(vel.y as int));
    crate::fx::lemma_isqrt_monotone(s_sq_len(nv), s_sq_len(vel));
}

/// Dampening along an axis removes exactly the requested speed, clamped at
/// zero: with no accumulated acceleration and the velocity on the x axis,
/// one integration step leaves speed `max(0, v - m*dt)` and the sign of the
/// moving component intact. Velocities off the axes lose this exactness to
/// truncation; the direction is still preserved (see
/// `lemma_damp_never_reverses`).
pub proof fn lemma_damp_exact_speed(vel: Vec2Fx, acc: Vec2Fx, mda: int, dt: int)
    requires
        acc.x == 0,
        acc.y == 0,
        vel.y == 0,
        0 <= mda,
        0 <= dt,
        s_abs(vel.x as int) <= COORD_LIMIT,
    ensures
        vel.y + s_dv_y(vel, acc, mda, dt) == 0,
        s_abs(vel.x + s_dv_x(vel, acc, mda, dt)) == if s_mulfx(mda, dt) <= s_abs(vel.x as int) {
            s_abs(vel.x as int) - s_mulfx(mda, dt)
        } else {
            0
        },
        vel.x >= 0 ==> vel.x + s_dv_x(vel, acc, mda, dt) >= 0,
        vel.x <= 0 ==> vel.x + s_dv_x(vel, acc, mda, dt) <= 0,
{
    lemma_mulfx_bound(mda, dt, mda, dt);
    let mdv = s_mulfx(mda, dt);
    assert(s_mulfx(0, dt) == 0) by {
        lemma_tdiv_props(0 * dt, 1000);
    }
    if vel.x == 0 {
        lemma_integrator_rest(vel, acc, dt);
        assert(s_damp_dv(vel, mda, dt) == if mdv <= s_len(vel) {
            mdv
        } else {
            s_len(vel)
        });
        lemma_isqrt(s_sq_len(vel));
        assert(s_len(vel) == 0) by (nonlinear_arith)
            requires
                is_isqrt(0, s_len(vel)),
                s_sq_len(vel) == 0,
        ;
        let ddv = s_damp_dv(vel, mda, dt);
        assert(ddv == 0);
        assert(s_mulfx(s_unit_x(vel), ddv) == 0) by {
            lemma_tdiv_props(0 * ddv, 1000);
        }
        assert(s_mulfx(s_unit_y(vel), ddv) == 0) by {
            lemma_tdiv_props(0 * ddv, 1000);
        }
    } else {
        let c = vel.x as int;
        let mc = s_abs(c);
        lemma_square_nonneg(c);
        assert(is_isqrt(s_sq_len(vel), mc)) by (nonlinear_arith)
            requires
                s_sq_len(vel) == c * c,
                mc == s_abs(c),
                s_abs(c) * s_abs(c) == c * c,
        ;
        lemma_isqrt(s_sq_len(vel));
        lemma_isqrt_unique(s_sq_len(vel), mc, s_len(vel));
        assert(s_len(vel) == mc);
        let ddv = s_damp_dv(vel, mda, dt);
        assert(ddv == if mdv <= mc {
            mdv
        } else {
            mc
        });
        crate::fx::lemma_unit_bounds(vel);
        lemma_mul_sign(c, 1000);
        lemma_tdiv_props(c * 1000, mc);
        lemma_abs_mul(c, 1000);
        assert(s_abs(s_unit_x(vel)) == (mc * 1000) / mc);
        vstd::arithmetic::div_mod::lemma_div_multiples_vanish(1000, mc);
        assert(mc * 1000 == 1000 * mc);
        assert(s_abs(s_unit_x(vel)) == 1000);
        assert(s_unit_y(vel) == s_tdiv(0int * 1000, mc));
        assert(s_unit_y(vel) == 0) by {
            lemma_tdiv_props(0int * 1000, mc);
        }
        assert(s_mulfx(s_unit_y(vel), ddv) == 0) by {
            lemma_tdiv_props(0 * ddv, 1000);
        }
        let u = s_unit_x(vel);
        lemma_mul_sign(u, ddv);
        lemma_tdiv_props(u * ddv, 1000);
        lemma_abs_mul(u, ddv);
        vstd::arithmetic::div_mod::lemma_div_multiples_vanish(ddv, 1000);
        assert(s_abs(u) * ddv == 1000 * ddv);
        assert(s_abs(s_mulfx(u, ddv)) == ddv);
    }
}

} // verus!
