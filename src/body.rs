//! Bodies and the configuration shared by every pass of a tick.
use vstd::prelude::*;
use crate::fixed::{Vec2, MAX_DT, MAX_MAG, MICROS, UNIT};

verus! {

/// Fixed-point subdivisions of one mass unit.
pub const MASS_ONE: i64 = 1000;

/// Largest mass a body may carry, in subdivisions of a mass unit.
pub const MAX_MASS: i64 = 1_000_000_000;

/// Fixed-point scale of the cosine and sine that describe a rotation.
pub const ROT_ONE: i64 = 1_000_000;

/// Damping coefficient times tick length at which a tick removes the whole
/// velocity: millionths per second times microseconds.
pub const DAMP_ONE: i64 = 1_000_000_000_000;

/// Largest pairwise gravitational constant.
pub const MAX_PULL: i64 = 1_000_000_000;

/// A rotation, given by its cosine and sine scaled by `ROT_ONE`.
#[derive(Clone, Copy, Debug, PartialEq, Eq, Structural)]
pub struct Rotation {
    pub cos: i64,
    pub sin: i64,
}

impl Rotation {
    /// No rotation at all.
    pub fn identity() -> (r: Rotation)
        ensures
            r.cos == ROT_ONE,
            r.sin == 0,
    {
        Rotation { cos: ROT_ONE, sin: 0 }
    }

    pub open spec fn wf(self) -> bool {
        -ROT_ONE <= self.cos <= ROT_ONE && -ROT_ONE <= self.sin <= ROT_ONE
    }
}

/// A simulated box: its kinematic state, its mass and its shape.
#[derive(Clone, Copy, Debug, PartialEq, Eq, Structural)]
pub struct Body {
    /// Centre of the box.
    pub position: Vec2,
    pub velocity: Vec2,
    /// Accumulated acceleration; only the pairwise pull adds to it.
    pub acceleration: Vec2,
    /// Mass in subdivisions of `MASS_ONE`; positive unless the body is static.
    pub mass: i64,
    /// Half the width and half the height of the box.
    pub half_extents: Vec2,
    pub rotation: Rotation,
    /// A static body never moves and exerts no pull, but still collides.
    pub is_static: bool,
    /// Whether constant downward gravity acts on the body.
    pub affected_by_gravity: bool,
    /// Whether the body takes part in collision detection.
    pub has_collider: bool,
}

impl Body {
    /// Every stored quantity within its range: coordinates within
    /// `MAX_MAG`, a bounded mass that is positive for every body that can
    /// attract (static bodies exert no pull), non-negative extents.
    pub open spec fn wf(self) -> bool {
        &&& self.position.in_range()
        &&& self.velocity.in_range()
        &&& self.acceleration.in_range()
        &&& 0 <= self.mass <= MAX_MASS
        &&& !self.is_static ==> 0 < self.mass
        &&& 0 <= self.half_extents.x <= MAX_MAG
        &&& 0 <= self.half_extents.y <= MAX_MAG
        &&& self.rotation.wf()
    }

    pub fn is_valid(&self) -> (r: bool)
        ensures
            r == self.wf(),
    {
        vec_in_range(self.position) && vec_in_range(self.velocity) && vec_in_range(
            self.acceleration,
        ) && 0 <= self.mass && self.mass <= MAX_MASS
            && (self.is_static || 0 < self.mass) && 0 <= self.half_extents.x
            && self.half_extents.x <= MAX_MAG && 0 <= self.half_extents.y
            && self.half_extents.y <= MAX_MAG && -ROT_ONE <= self.rotation.cos
            && self.rotation.cos <= ROT_ONE && -ROT_ONE <= self.rotation.sin
            && self.rotation.sin <= ROT_ONE
    }

    /// A dynamic, unrotated box at rest, subject to gravity and colliding.
    pub fn dynamic_box(position: Vec2, half_extents: Vec2, mass: i64) -> (r: Body)
        ensures
            r.position == position,
            r.velocity == (Vec2 { x: 0, y: 0 }),
            r.acceleration == (Vec2 { x: 0, y: 0 }),
            r.mass == mass,
            r.half_extents == half_extents,
            r.rotation == (Rotation { cos: ROT_ONE, sin: 0 }),
            !r.is_static,
            r.affected_by_gravity,
            r.has_collider,
    {
        Body {
            position,
            velocity: Vec2 { x: 0, y: 0 },
            acceleration: Vec2 { x: 0, y: 0 },
            mass,
            half_extents,
            rotation: Rotation::identity(),
            is_static: false,
            affected_by_gravity: true,
            has_collider: true,
        }
    }

    /// An immovable, unrotated box that only collides.
    pub fn static_box(position: Vec2, half_extents: Vec2, mass: i64) -> (r: Body)
        ensures
            r.position == position,
            r.velocity == (Vec2 { x: 0, y: 0 }),
            r.acceleration == (Vec2 { x: 0, y: 0 }),
            r.mass == mass,
            r.half_extents == half_extents,
            r.rotation == (Rotation { cos: ROT_ONE, sin: 0 }),
            r.is_static,
            !r.affected_by_gravity,
            r.has_collider,
    {
        Body {
            position,
            velocity: Vec2 { x: 0, y: 0 },
            acceleration: Vec2 { x: 0, y: 0 },
            mass,
            half_extents,
            rotation: Rotation::identity(),
            is_static: true,
            affected_by_gravity: false,
            has_collider: true,
        }
    }
}

fn vec_in_range(v: Vec2) -> (r: bool)
    ensures
        r == v.in_range(),
{
    -MAX_MAG <= v.x && v.x <= MAX_MAG && -MAX_MAG <= v.y && v.y <= MAX_MAG
}

/// Every body of `s` is well formed.
pub open spec fn all_wf(s: Seq<Body>) -> bool {
    forall|k: int| 0 <= k < s.len() ==> #[trigger] s[k].wf()
}

/// The tunable constants of the simulation.
#[derive(Clone, Copy, Debug, PartialEq, Eq, Structural)]
pub struct Config {
    /// Downward acceleration of constant gravity.
    pub gravity: i64,
    /// Gravitational constant of the pairwise pull, in millionths: 1,000,000
    /// stands for a constant of one, in world units, mass units and
    /// seconds. Zero turns the pull off.
    pub pull_strength: i64,
    /// Pairs farther apart than this squared distance exert no pull.
    pub pull_cutoff_sq: Option<i128>,
    /// Velocity damping per second, in millionths.
    pub damping: i64,
    /// Upward velocity gained per second while a jump is boosted.
    pub jump_accel: i64,
    /// Horizontal velocity gained per second while a direction is held.
    pub run_accel: i64,
    /// Horizontal speed at which run input stops adding velocity.
    pub max_run_speed: i64,
    /// Vertical velocity at which jump input stops adding velocity.
    pub max_rise_speed: i64,
    /// Longest a jump may be boosted by holding the key, in microseconds.
    pub max_hold: i64,
}

impl Config {
    pub open spec fn wf(self) -> bool {
        &&& 0 <= self.gravity <= MAX_MAG
        &&& 0 <= self.pull_strength <= MAX_PULL
        &&& 0 <= self.damping <= MAX_MAG
        &&& 0 <= self.jump_accel <= MAX_MAG
        &&& 0 <= self.run_accel <= MAX_MAG
        &&& 0 <= self.max_run_speed <= MAX_MAG
        &&& 0 <= self.max_rise_speed <= MAX_MAG
        &&& 0 <= self.max_hold <= MAX_MAG
    }

    /// A tick of `dt` microseconds is accepted: it is at most `MAX_DT`
    /// and damping over it removes at most the whole velocity.
    pub open spec fn tick_ok(self, dt: i64) -> bool {
        &&& 0 <= dt <= MAX_DT
        &&& self.damping * dt <= DAMP_ONE
    }

    pub fn is_valid(&self) -> (r: bool)
        ensures
            r == self.wf(),
    {
        0 <= self.gravity && self.gravity <= MAX_MAG && 0 <= self.pull_strength
            && self.pull_strength <= MAX_PULL && 0 <= self.damping && self.damping <= MAX_MAG
            && 0 <= self.jump_accel && self.jump_accel <= MAX_MAG && 0 <= self.run_accel
            && self.run_accel <= MAX_MAG && 0 <= self.max_run_speed
            && self.max_run_speed <= MAX_MAG && 0 <= self.max_rise_speed
            && self.max_rise_speed <= MAX_MAG && 0 <= self.max_hold && self.max_hold <= MAX_MAG
    }

    pub fn accepts_tick(&self, dt: i64) -> (r: bool)
        requires
            self.wf(),
        ensures
            r == self.tick_ok(dt),
    {
        if dt < 0 || dt > MAX_DT {
            return false;
        }
        proof {
            assert(self.damping * dt <= MAX_MAG * MAX_DT) by (nonlinear_arith)
                requires
                    0 <= self.damping <= MAX_MAG,
                    0 <= dt <= MAX_DT,
            ;
        }
        (self.damping as i128) * (dt as i128) <= DAMP_ONE as i128
    }

    /// The tuning of a platformer: gravity of 1000 units per second
    /// squared, no pairwise pull and no damping, a run speed and rise
    /// speed of 300 units per second, and jumps boosted for up to half a
    /// second.
    pub fn platformer() -> (r: Config)
        ensures
            r.wf(),
            r.gravity == 1000 * UNIT,
            r.pull_strength == 0,
            r.pull_cutoff_sq is None,
            r.damping == 0,
            r.jump_accel == 10_000 * UNIT,
            r.run_accel == 1000 * UNIT,
            r.max_run_speed == 300 * UNIT,
            r.max_rise_speed == 300 * UNIT,
            r.max_hold == MICROS / 2,
    {
        Config {
            gravity: 1000 * UNIT,
            pull_strength: 0,
            pull_cutoff_sq: None,
            damping: 0,
            jump_accel: 10_000 * UNIT,
            run_accel: 1000 * UNIT,
            max_run_speed: 300 * UNIT,
            max_rise_speed: 300 * UNIT,
            max_hold: MICROS / 2,
        }
    }
}

} // verus!
