//! The integrator: velocity from acceleration, position from velocity, then
//! exponential damping of the velocity.
//!
//! Order within a tick: the velocity first takes the acceleration, the
//! position then moves by that advanced velocity, and damping comes last,
//! so it acts on the advanced velocity and does not affect this tick's
//! displacement.
use vstd::prelude::*;
use vstd::arithmetic::div_mod::lemma_fundamental_div_mod;
use vstd::arithmetic::power::{lemma_pow_positive, pow};
use crate::body::{all_wf, Body, Config, DAMP_ONE};
use crate::fixed::{
    clamp_mag, in_range, lemma_per_tick_bound, per_tick, saturate, scale_by_dt, Vec2, MAX_DT,
    MAX_MAG,
};

verus! {

pub open spec fn abs(x: int) -> int {
    if x >= 0 {
        x
    } else {
        -x
    }
}

/// `v` after one tick of damping, where `cdt` is the damping coefficient
/// times the tick length in units of `DAMP_ONE`. The part removed,
/// `|v| * cdt / DAMP_ONE`, is rounded up, so any velocity decays to rest
/// and none changes sign.
pub open spec fn damped(v: int, cdt: int) -> int {
    let m = abs(v);
    let kept = m - (m * cdt + DAMP_ONE - 1) / (DAMP_ONE as int);
    if v >= 0 {
        kept
    } else {
        -kept
    }
}

/// The body after one tick of integration and damping; static bodies stay
/// as they are.
pub open spec fn integrate_body(b: Body, cfg: Config, dt: i64) -> Body {
    if b.is_static {
        b
    } else {
        let vx = clamp_mag(b.velocity.x + per_tick(b.acceleration.x as int, dt as int));
        let vy = clamp_mag(b.velocity.y + per_tick(b.acceleration.y as int, dt as int));
        let cdt = cfg.damping * dt;
        Body {
            position: Vec2 {
                x: clamp_mag(b.position.x + per_tick(vx, dt as int)) as i64,
                y: clamp_mag(b.position.y + per_tick(vy, dt as int)) as i64,
            },
            velocity: Vec2 { x: damped(vx, cdt) as i64, y: damped(vy, cdt) as i64 },
            ..b
        }
    }
}

/// The bodies after one tick of integration.
pub open spec fn integrate_all(s: Seq<Body>, cfg: Config, dt: i64) -> Seq<Body> {
    s.map_values(|b: Body| integrate_body(b, cfg, dt))
}

/// The body after `n` ticks of integration with no other influence.
pub open spec fn integrate_n(b: Body, cfg: Config, dt: i64, n: nat) -> Body
    decreases n,
{
    if n == 0 {
        b
    } else {
        integrate_body(integrate_n(b, cfg, dt, (n - 1) as nat), cfg, dt)
    }
}

/// One tick of damping keeps the sign, never grows the magnitude, shrinks
/// it by at least the factor `(DAMP_ONE - cdt) / DAMP_ONE`, and by at least
/// one whenever damping is on and `v` is not at rest.
pub proof fn lemma_damped(v: int, cdt: int)
    requires
        in_range(v),
        0 <= cdt <= DAMP_ONE,
    ensures
        v >= 0 ==> damped(v, cdt) >= 0,
        v <= 0 ==> damped(v, cdt) <= 0,
        abs(damped(v, cdt)) <= abs(v),
        abs(damped(v, cdt)) * DAMP_ONE <= abs(v) * (DAMP_ONE - cdt),
        cdt > 0 && v != 0 ==> abs(damped(v, cdt)) < abs(v),
{
    let m = abs(v);
    let d = DAMP_ONE as int;
    let x = m * cdt + d - 1;
    let q = x / d;
    lemma_fundamental_div_mod(x, d);
    assert(0 <= x % d < d);
    assert(m * cdt <= m * d) by (nonlinear_arith)
        requires
            0 <= m,
            cdt <= d,
    ;
    assert(0 <= m * cdt) by (nonlinear_arith)
        requires
            0 <= m,
            0 <= cdt,
    ;
    assert(q <= m && q * d >= m * cdt && q >= 0) by (nonlinear_arith)
        requires
            x == d * q + x % d,
            0 <= x % d < d,
            x == m * cdt + d - 1,
            m * cdt <= m * d,
            0 <= m * cdt,
            d > 0,
    ;
    assert((m - q) * d <= m * (d - cdt)) by (nonlinear_arith)
        requires
            q * d >= m * cdt,
    ;
    if cdt > 0 && v != 0 {
        assert(m * cdt >= 1) by (nonlinear_arith)
            requires
                m >= 1,
                cdt >= 1,
        ;
        assert(q >= 1) by (nonlinear_arith)
            requires
                q * d >= m * cdt,
                m * cdt >= 1,
                d > 0,
        ;
    }
}

/// With no acceleration, a dynamic body's velocity decays under damping
/// alone: after `n` ticks each component is at most `(1 - c * dt)^n` times
/// its start, here `|v_n| * DAMP_ONE^n <= |v_0| * (DAMP_ONE - cdt)^n`, and
/// with damping on it is at rest after `|v_0|` ticks at the latest.
pub proof fn lemma_damping_decay(b: Body, cfg: Config, dt: i64, n: nat)
    requires
        b.wf(),
        !b.is_static,
        b.acceleration == (Vec2 { x: 0, y: 0 }),
        cfg.wf(),
        cfg.tick_ok(dt),
    ensures
        integrate_n(b, cfg, dt, n).wf(),
        !integrate_n(b, cfg, dt, n).is_static,
        integrate_n(b, cfg, dt, n).acceleration == b.acceleration,
        abs(integrate_n(b, cfg, dt, n).velocity.x as int) * pow(DAMP_ONE as int, n) <= abs(
            b.velocity.x as int,
        ) * pow(DAMP_ONE - cfg.damping * dt, n),
        abs(integrate_n(b, cfg, dt, n).velocity.y as int) * pow(DAMP_ONE as int, n) <= abs(
            b.velocity.y as int,
        ) * pow(DAMP_ONE - cfg.damping * dt, n),
        cfg.damping * dt > 0 && n >= abs(b.velocity.x as int) ==> integrate_n(
            b,
            cfg,
            dt,
            n,
        ).velocity.x == 0,
        cfg.damping * dt > 0 && n >= abs(b.velocity.y as int) ==> integrate_n(
            b,
            cfg,
            dt,
            n,
        ).velocity.y == 0,
        cfg.damping * dt > 0 ==> abs(integrate_n(b, cfg, dt, n).velocity.x as int) <= abs(
            b.velocity.x as int,
        ) - n || integrate_n(b, cfg, dt, n).velocity.x == 0,
        cfg.damping * dt > 0 ==> abs(integrate_n(b, cfg, dt, n).velocity.y as int) <= abs(
            b.velocity.y as int,
        ) - n || integrate_n(b, cfg, dt, n).velocity.y == 0,
    decreases n,
{
    let cdt = cfg.damping * dt;
    let d = DAMP_ONE as int;
    let e = d - cdt;
    assert(0 <= cfg.damping * dt) by (nonlinear_arith)
        requires
            0 <= cfg.damping,
            0 <= dt,
    ;
    reveal(pow);
    if n > 0 {
        let m = (n - 1) as nat;
        lemma_damping_decay(b, cfg, dt, m);
        let p = integrate_n(b, cfg, dt, m);
        let q = integrate_n(b, cfg, dt, n);
        lemma_integrate_body_wf(p, cfg, dt);
        assert(per_tick(0, dt as int) == 0);
        lemma_damped(p.velocity.x as int, cdt);
        lemma_damped(p.velocity.y as int, cdt);
        assert(q.velocity.x == damped(p.velocity.x as int, cdt));
        assert(q.velocity.y == damped(p.velocity.y as int, cdt));
        lemma_pow_positive(d, m);
        lemma_pow_step(abs(p.velocity.x as int), abs(q.velocity.x as int), abs(b.velocity.x as int), d, e, m);
        lemma_pow_step(abs(p.velocity.y as int), abs(q.velocity.y as int), abs(b.velocity.y as int), d, e, m);
    }
}

proof fn lemma_pow_step(xp: int, xq: int, x0: int, d: int, e: int, m: nat)
    requires
        0 <= xq,
        0 <= x0,
        0 <= e,
        pow(d, m) > 0,
        xq * d <= xp * e,
        xp * pow(d, m) <= x0 * pow(e, m),
    ensures
        xq * pow(d, m + 1) <= x0 * pow(e, m + 1),
{
    reveal(pow);
    assert(pow(d, m + 1) == d * pow(d, m));
    assert(pow(e, m + 1) == e * pow(e, m));
    assert(xq * (d * pow(d, m)) <= x0 * (e * pow(e, m))) by (nonlinear_arith)
        requires
            0 <= xq,
            0 <= e,
            pow(d, m) > 0,
            xq * d <= xp * e,
            xp * pow(d, m) <= x0 * pow(e, m),
    ;
}

/// Integration keeps a body well formed and leaves its acceleration, mass,
/// shape and flags as they were.
pub proof fn lemma_integrate_body_wf(b: Body, cfg: Config, dt: i64)
    requires
        b.wf(),
        cfg.wf(),
        cfg.tick_ok(dt),
    ensures
        integrate_body(b, cfg, dt).wf(),
        integrate_body(b, cfg, dt).acceleration == b.acceleration,
        integrate_body(b, cfg, dt).is_static == b.is_static,
        integrate_body(b, cfg, dt).mass == b.mass,
        integrate_body(b, cfg, dt).half_extents == b.half_extents,
{
    if !b.is_static {
        let vx = clamp_mag(b.velocity.x + per_tick(b.acceleration.x as int, dt as int));
        let vy = clamp_mag(b.velocity.y + per_tick(b.acceleration.y as int, dt as int));
        let cdt = cfg.damping * dt;
        assert(0 <= cfg.damping * dt) by (nonlinear_arith)
            requires
                0 <= cfg.damping,
                0 <= dt,
        ;
        lemma_damped(vx, cdt);
        lemma_damped(vy, cdt);
    }
}

/// `v` after one tick of damping.
fn damp(v: i64, cdt: i128) -> (r: i64)
    requires
        in_range(v as int),
        0 <= cdt <= DAMP_ONE,
    ensures
        r == damped(v as int, cdt as int),
{
    proof {
        lemma_damped(v as int, cdt as int);
    }
    let m: i128 = if v >= 0 {
        v as i128
    } else {
        -(v as i128)
    };
    proof {
        assert(0 <= m * cdt <= MAX_MAG * DAMP_ONE) by (nonlinear_arith)
            requires
                0 <= m <= MAX_MAG,
                0 <= cdt <= DAMP_ONE,
        ;
    }
    let kept: i128 = m - (m * cdt + (DAMP_ONE as i128) - 1) / (DAMP_ONE as i128);
    if v >= 0 {
        kept as i64
    } else {
        (-kept) as i64
    }
}

fn integrate_one(b: &Body, cfg: &Config, dt: i64) -> (r: Body)
    requires
        b.wf(),
        cfg.wf(),
        cfg.tick_ok(dt),
    ensures
        r == integrate_body(*b, *cfg, dt),
{
    if b.is_static {
        return *b;
    }
    proof {
        lemma_per_tick_bound(b.acceleration.x as int, dt as int);
        lemma_per_tick_bound(b.acceleration.y as int, dt as int);
    }
    let vx = saturate(b.velocity.x as i128 + scale_by_dt(b.acceleration.x, dt));
    let vy = saturate(b.velocity.y as i128 + scale_by_dt(b.acceleration.y, dt));
    proof {
        lemma_per_tick_bound(vx as int, dt as int);
        lemma_per_tick_bound(vy as int, dt as int);
    }
    let px = saturate(b.position.x as i128 + scale_by_dt(vx, dt));
    let py = saturate(b.position.y as i128 + scale_by_dt(vy, dt));
    let cdt: i128 = (cfg.damping as i128) * (dt as i128);
    Body {
        position: Vec2 { x: px, y: py },
        velocity: Vec2 { x: damp(vx, cdt), y: damp(vy, cdt) },
        ..*b
    }
}

/// Advances every dynamic body by one tick: velocity, then position, then
/// damping.
pub fn integrate(bodies: &mut Vec<Body>, cfg: &Config, dt: i64)
    requires
        all_wf(old(bodies)@),
        cfg.wf(),
        cfg.tick_ok(dt),
    ensures
        final(bodies)@ == integrate_all(old(bodies)@, *cfg, dt),
        all_wf(final(bodies)@),
{
    let n = bodies.len();
    let mut i: usize = 0;
    while i < n
        invariant
            0 <= i <= n,
            n == bodies.len(),
            n == old(bodies)@.len(),
            cfg.wf(),
            cfg.tick_ok(dt),
            forall|k: int|
                0 <= k < i ==> #[trigger] bodies@[k] == integrate_body(old(bodies)@[k], *cfg, dt),
            forall|k: int| i <= k < n ==> #[trigger] bodies@[k] == old(bodies)@[k],
            all_wf(old(bodies)@),
            all_wf(bodies@),
        decreases n - i,
    {
        let b = bodies[i];
        assert(old(bodies)@[i as int].wf());
        let nb = integrate_one(&b, cfg, dt);
        proof {
            lemma_integrate_body_wf(b, *cfg, dt);
        }
        bodies[i] = nb;
        assert(bodies@[i as int].wf());
        i += 1;
    }
    assert(bodies@ =~= integrate_all(old(bodies)@, *cfg, dt));
}

} // verus!
