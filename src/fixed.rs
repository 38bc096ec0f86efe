//! Fixed-point scalars and the arithmetic every pass shares.
use vstd::prelude::*;

verus! {

/// Fixed-point subdivisions of one world unit. Lengths are stored in these
/// subdivisions, velocities in subdivisions per second, accelerations in
/// subdivisions per second squared.
pub const UNIT: i64 = 1000;

/// Microseconds in one second. Tick durations are given in microseconds.
pub const MICROS: i64 = 1_000_000;

/// Largest magnitude of any stored coordinate, velocity or acceleration
/// component. Every update saturates at this bound.
pub const MAX_MAG: i64 = 1_000_000_000_000;

/// Longest tick the core accepts, in microseconds.
pub const MAX_DT: i64 = 1_000_000;

/// Division rounding toward zero, as Rust's integer division does.
pub open spec fn tdiv(a: int, b: int) -> int {
    if a >= 0 {
        a / b
    } else {
        -((-a) / b)
    }
}

/// `x` saturated to the range `[-MAX_MAG, MAX_MAG]`.
pub open spec fn clamp_mag(x: int) -> int {
    if x > MAX_MAG {
        MAX_MAG as int
    } else if x < -MAX_MAG {
        -MAX_MAG
    } else {
        x
    }
}

/// How much a per-second rate contributes over a tick of `dt` microseconds.
pub open spec fn per_tick(rate: int, dt: int) -> int {
    tdiv(rate * dt, MICROS as int)
}

/// Whether `x` lies within the stored range.
pub open spec fn in_range(x: int) -> bool {
    -MAX_MAG <= x <= MAX_MAG
}

pub fn div_trunc(a: i128, b: i128) -> (r: i128)
    requires
        b > 0,
    ensures
        r == tdiv(a as int, b as int),
{
    a / b
}

pub fn saturate(x: i128) -> (r: i64)
    ensures
        r == clamp_mag(x as int),
        in_range(r as int),
{
    if x > MAX_MAG as i128 {
        MAX_MAG
    } else if x < -(MAX_MAG as i128) {
        -MAX_MAG
    } else {
        x as i64
    }
}

/// `rate * dt / MICROS`, rounded toward zero.
pub fn scale_by_dt(rate: i64, dt: i64) -> (r: i128)
    ensures
        r == per_tick(rate as int, dt as int),
{
    let p: i128 = wide_mul(rate, dt);
    div_trunc(p, MICROS as i128)
}

/// Over at most one second, a rate contributes no more than itself, with
/// its own sign.
pub proof fn lemma_per_tick_bound(rate: int, dt: int)
    requires
        0 <= dt <= MICROS,
    ensures
        rate >= 0 ==> 0 <= per_tick(rate, dt) <= rate,
        rate < 0 ==> rate <= per_tick(rate, dt) <= 0,
{
    let m = MICROS as int;
    if rate >= 0 {
        assert(0 <= rate * dt <= rate * m) by (nonlinear_arith)
            requires
                0 <= dt <= m,
                rate >= 0,
        ;
        assert((rate * dt) / m <= rate) by (nonlinear_arith)
            requires
                0 <= rate * dt <= rate * m,
                m > 0,
        ;
    } else {
        assert(0 <= (-rate) * dt <= (-rate) * m) by (nonlinear_arith)
            requires
                0 <= dt <= m,
                rate < 0,
        ;
        assert(-(rate * dt) == (-rate) * dt) by (nonlinear_arith);
        assert(((-rate) * dt) / m <= -rate) by (nonlinear_arith)
            requires
                0 <= (-rate) * dt <= (-rate) * m,
                m > 0,
        ;
    }
}

/// The exact product of two 64-bit integers.
pub fn wide_mul(a: i64, b: i64) -> (r: i128)
    ensures
        r == a * b,
{
    proof {
        let (x, y) = (a as int, b as int);
        assert(-0x8000_0000_0000_0000 <= x < 0x8000_0000_0000_0000);
        assert(x * y <= 0x4000_0000_0000_0000_0000_0000_0000_0000 && x * y >= -0x4000_0000_0000_0000_0000_0000_0000_0000) by (nonlinear_arith)
            requires
                -0x8000_0000_0000_0000 <= x < 0x8000_0000_0000_0000,
                -0x8000_0000_0000_0000 <= y < 0x8000_0000_0000_0000,
        ;
    }
    (a as i128) * (b as i128)
}

/// A 2D vector of fixed-point components.
#[derive(Clone, Copy, Debug, PartialEq, Eq, Structural)]
pub struct Vec2 {
    pub x: i64,
    pub y: i64,
}

impl Vec2 {
    pub fn new(x: i64, y: i64) -> (r: Vec2)
        ensures
            r.x == x,
            r.y == y,
    {
        Vec2 { x, y }
    }

    pub open spec fn in_range(self) -> bool {
        in_range(self.x as int) && in_range(self.y as int)
    }
}

} // verus!
