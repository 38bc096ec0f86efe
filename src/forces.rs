//! The force accumulator: constant downward gravity on velocities and the
//! pairwise gravitational pull on accelerations.
use vstd::prelude::*;
use crate::body::{all_wf, Body, Config, MAX_MASS, MAX_PULL};
use crate::fixed::{
    clamp_mag, in_range, lemma_per_tick_bound, per_tick, saturate, scale_by_dt, tdiv, Vec2, MAX_DT,
    MAX_MAG,
};

verus! {

/// Divisor of the pull term: a mass unit's subdivisions times the
/// microseconds in a second.
pub const PULL_DEN: i64 = 1_000_000_000;

/// The body after one tick of constant gravity: dynamic bodies subject to
/// gravity lose `g * dt` of vertical velocity.
pub open spec fn gravity_body(b: Body, cfg: Config, dt: i64) -> Body {
    if b.affected_by_gravity && !b.is_static {
        Body {
            velocity: Vec2 {
                y: clamp_mag(b.velocity.y - per_tick(cfg.gravity as int, dt as int)) as i64,
                ..b.velocity
            },
            ..b
        }
    } else {
        b
    }
}

/// The bodies after one tick of constant gravity.
pub open spec fn gravity_all(s: Seq<Body>, cfg: Config, dt: i64) -> Seq<Body> {
    s.map_values(|b: Body| gravity_body(b, cfg, dt))
}

/// Offset along x from body `a` to body `b`.
pub open spec fn offset_x(a: Body, b: Body) -> int {
    b.position.x - a.position.x
}

/// Offset along y from body `a` to body `b`.
pub open spec fn offset_y(a: Body, b: Body) -> int {
    b.position.y - a.position.y
}

/// Squared distance between the centres of two bodies.
pub open spec fn dist_sq(a: Body, b: Body) -> int {
    offset_x(a, b) * offset_x(a, b) + offset_y(a, b) * offset_y(a, b)
}

/// A squared distance is within the configured cutoff, if there is one.
pub open spec fn within_cutoff(d2: int, cfg: Config) -> bool {
    match cfg.pull_cutoff_sq {
        Some(c) => d2 <= c,
        None => true,
    }
}

/// The pair attracts: both bodies are dynamic, their centres differ (the
/// direction of the pull is undefined otherwise) and they are within the
/// cutoff.
pub open spec fn pulls(a: Body, b: Body, cfg: Config) -> bool {
    !a.is_static && !b.is_static && dist_sq(a, b) != 0 && within_cutoff(dist_sq(a, b), cfg)
}

/// Acceleration added along an axis where the other body lies `d` away, at
/// squared distance `d2`, with mass `m`: `d * (G / d2) * m * dt`, rounded
/// toward zero.
pub open spec fn pull_on(d: int, d2: int, m: int, strength: int, dt: int) -> int {
    tdiv(d * strength * m * dt, d2 * PULL_DEN)
}

/// Body `a` after body `b` pulls on it for one tick.
pub open spec fn pulled_toward(a: Body, b: Body, cfg: Config, dt: i64) -> Body {
    let d2 = dist_sq(a, b);
    let g = cfg.pull_strength as int;
    Body {
        acceleration: Vec2 {
            x: clamp_mag(a.acceleration.x + pull_on(offset_x(a, b), d2, b.mass as int, g, dt as int))
                as i64,
            y: clamp_mag(a.acceleration.y + pull_on(offset_y(a, b), d2, b.mass as int, g, dt as int))
                as i64,
        },
        ..a
    }
}

/// The bodies after the pair `i`, `j` pulls on each other.
pub open spec fn pair_pulled(s: Seq<Body>, i: int, j: int, cfg: Config, dt: i64) -> Seq<Body> {
    if pulls(s[i], s[j], cfg) {
        s.update(i, pulled_toward(s[i], s[j], cfg, dt)).update(j, pulled_toward(s[j], s[i], cfg, dt))
    } else {
        s
    }
}

/// The bodies after the pairs `(i, k)` for `i < k < j` pull, in order of `k`.
pub open spec fn pull_row(s: Seq<Body>, i: int, j: int, cfg: Config, dt: i64) -> Seq<Body>
    decreases j - i,
{
    if j <= i + 1 {
        s
    } else {
        pair_pulled(pull_row(s, i, j - 1, cfg, dt), i, j - 1, cfg, dt)
    }
}

/// The bodies after every pair whose first body is below `i` pulls,
/// ordered by the first body and then the second.
pub open spec fn pulled_upto(s: Seq<Body>, i: int, cfg: Config, dt: i64) -> Seq<Body>
    decreases i,
{
    if i <= 0 {
        s
    } else {
        pull_row(pulled_upto(s, i - 1, cfg, dt), i - 1, s.len() as int, cfg, dt)
    }
}

/// The bodies after one tick of the pairwise pull.
pub open spec fn pulled_all(s: Seq<Body>, cfg: Config, dt: i64) -> Seq<Body> {
    pulled_upto(s, s.len() as int, cfg, dt)
}

/// The pull along an axis is odd in the offset: the body on the other side
/// feels the same term with its sign reversed.
pub proof fn lemma_pull_on_odd(d: int, d2: int, m: int, strength: int, dt: int)
    requires
        d2 != 0,
    ensures
        pull_on(-d, d2, m, strength, dt) == -pull_on(d, d2, m, strength, dt),
{
    assert((-d) * strength * m * dt == -(d * strength * m * dt)) by (nonlinear_arith);
    assert(d2 * PULL_DEN != 0) by (nonlinear_arith)
        requires
            d2 != 0,
    ;
    let x = d * strength * m * dt;
    if x == 0 {
        assert(0int / (d2 * PULL_DEN) == 0) by (nonlinear_arith)
            requires
                d2 * PULL_DEN != 0,
        ;
    }
}

/// Newton's third law for the pairwise pull: for a pair that attracts and
/// does not saturate, body `i` gains the pull toward `j` computed with
/// `j`'s mass, and body `j` gains exactly the negation of that term
/// computed with `i`'s mass. Bodies of equal mass gain opposite
/// accelerations.
pub proof fn lemma_pull_antisymmetric(s: Seq<Body>, i: int, j: int, cfg: Config, dt: i64)
    requires
        0 <= i < s.len(),
        0 <= j < s.len(),
        i != j,
        pulls(s[i], s[j], cfg),
        in_range(
            s[i].acceleration.x + pull_on(
                offset_x(s[i], s[j]),
                dist_sq(s[i], s[j]),
                s[j].mass as int,
                cfg.pull_strength as int,
                dt as int,
            ),
        ),
        in_range(
            s[i].acceleration.y + pull_on(
                offset_y(s[i], s[j]),
                dist_sq(s[i], s[j]),
                s[j].mass as int,
                cfg.pull_strength as int,
                dt as int,
            ),
        ),
        in_range(
            s[j].acceleration.x - pull_on(
                offset_x(s[i], s[j]),
                dist_sq(s[i], s[j]),
                s[i].mass as int,
                cfg.pull_strength as int,
                dt as int,
            ),
        ),
        in_range(
            s[j].acceleration.y - pull_on(
                offset_y(s[i], s[j]),
                dist_sq(s[i], s[j]),
                s[i].mass as int,
                cfg.pull_strength as int,
                dt as int,
            ),
        ),
    ensures
        ({
            let t = pair_pulled(s, i, j, cfg, dt);
            let (dx, dy, d2) = (offset_x(s[i], s[j]), offset_y(s[i], s[j]), dist_sq(s[i], s[j]));
            let g = cfg.pull_strength as int;
            &&& t[i].acceleration.x - s[i].acceleration.x == pull_on(dx, d2, s[j].mass as int, g, dt as int)
            &&& t[i].acceleration.y - s[i].acceleration.y == pull_on(dy, d2, s[j].mass as int, g, dt as int)
            &&& t[j].acceleration.x - s[j].acceleration.x == -pull_on(dx, d2, s[i].mass as int, g, dt as int)
            &&& t[j].acceleration.y - s[j].acceleration.y == -pull_on(dy, d2, s[i].mass as int, g, dt as int)
            &&& s[i].mass == s[j].mass ==> t[i].acceleration.x - s[i].acceleration.x == -(
            t[j].acceleration.x - s[j].acceleration.x)
            &&& s[i].mass == s[j].mass ==> t[i].acceleration.y - s[i].acceleration.y == -(
            t[j].acceleration.y - s[j].acceleration.y)
        }),
{
    let (a, b) = (s[i], s[j]);
    let (dx, dy, d2) = (offset_x(a, b), offset_y(a, b), dist_sq(a, b));
    let g = cfg.pull_strength as int;
    assert(dist_sq(b, a) == d2) by (nonlinear_arith)
        requires
            offset_x(b, a) == -dx,
            offset_y(b, a) == -dy,
            d2 == dx * dx + dy * dy,
    ;
    lemma_pull_on_odd(dx, d2, a.mass as int, g, dt as int);
    lemma_pull_on_odd(dy, d2, a.mass as int, g, dt as int);
    assert(offset_x(b, a) == -dx && offset_y(b, a) == -dy);
}

/// A pair whose centres coincide has no defined direction of pull: it
/// leaves every body unchanged.
pub proof fn lemma_coincident_pair_no_pull(s: Seq<Body>, i: int, j: int, cfg: Config, dt: i64)
    requires
        0 <= i < s.len(),
        0 <= j < s.len(),
        s[i].position == s[j].position,
    ensures
        pair_pulled(s, i, j, cfg, dt) == s,
{
    assert(dist_sq(s[i], s[j]) == 0);
}

/// Applies constant gravity to every dynamic body subject to it.
pub fn apply_gravity(bodies: &mut Vec<Body>, cfg: &Config, dt: i64)
    requires
        all_wf(old(bodies)@),
        cfg.wf(),
        0 <= dt <= MAX_DT,
    ensures
        final(bodies)@ == gravity_all(old(bodies)@, *cfg, dt),
        all_wf(final(bodies)@),
{
    let n = bodies.len();
    let dv = scale_by_dt(cfg.gravity, dt);
    proof {
        lemma_per_tick_bound(cfg.gravity as int, dt as int);
    }
    let mut i: usize = 0;
    while i < n
        invariant
            0 <= i <= n,
            n == bodies.len(),
            n == old(bodies)@.len(),
            dv == per_tick(cfg.gravity as int, dt as int),
            0 <= dv <= MAX_MAG,
            forall|k: int|
                0 <= k < i ==> #[trigger] bodies@[k] == gravity_body(old(bodies)@[k], *cfg, dt),
            forall|k: int| i <= k < n ==> #[trigger] bodies@[k] == old(bodies)@[k],
            all_wf(old(bodies)@),
            all_wf(bodies@),
        decreases n - i,
    {
        let b = bodies[i];
        if b.affected_by_gravity && !b.is_static {
            let vy = saturate(b.velocity.y as i128 - dv);
            bodies[i] = Body { velocity: Vec2 { x: b.velocity.x, y: vy }, ..b };
        }
        assert(old(bodies)@[i as int].wf());
        assert(bodies@[i as int].wf());
        i += 1;
    }
    assert(bodies@ =~= gravity_all(old(bodies)@, *cfg, dt));
}

/// The pull term: exact for the bounds the bodies and the tuning obey.
fn pull_term(d: i128, d2: i128, m: i64, strength: i64, dt: i64) -> (r: i128)
    requires
        -2 * MAX_MAG <= d <= 2 * MAX_MAG,
        0 < d2,
        0 < m <= MAX_MASS,
        0 <= strength <= MAX_PULL,
        0 <= dt <= MAX_DT,
        d2 <= 8 * MAX_MAG * MAX_MAG,
    ensures
        r == pull_on(d as int, d2 as int, m as int, strength as int, dt as int),
        -2 * MAX_MAG * MAX_PULL * MAX_MASS * MAX_DT <= r <= 2 * MAX_MAG * MAX_PULL * MAX_MASS * MAX_DT,
{
    let ghost bound: int = 2 * MAX_MAG * MAX_PULL * MAX_MASS * MAX_DT;
    proof {
        let (di, gi, mi, ti) = (d as int, strength as int, m as int, dt as int);
        assert(-2 * MAX_MAG * MAX_PULL <= di * gi <= 2 * MAX_MAG * MAX_PULL) by (nonlinear_arith)
            requires
                -2 * MAX_MAG <= di <= 2 * MAX_MAG,
                0 <= gi <= MAX_PULL,
        ;
        assert(-2 * MAX_MAG * MAX_PULL * MAX_MASS <= di * gi * mi <= 2 * MAX_MAG * MAX_PULL
            * MAX_MASS) by (nonlinear_arith)
            requires
                -2 * MAX_MAG * MAX_PULL <= di * gi <= 2 * MAX_MAG * MAX_PULL,
                0 < mi <= MAX_MASS,
        ;
        assert(-bound <= di * gi * mi * ti <= bound) by (nonlinear_arith)
            requires
                -2 * MAX_MAG * MAX_PULL * MAX_MASS <= di * gi * mi <= 2 * MAX_MAG * MAX_PULL
                    * MAX_MASS,
                0 <= ti <= MAX_DT,
                bound == 2 * MAX_MAG * MAX_PULL * MAX_MASS * MAX_DT,
        ;
    }
    let num: i128 = d * (strength as i128) * (m as i128) * (dt as i128);
    assert(0 < d2 * PULL_DEN <= 8 * MAX_MAG * MAX_MAG * PULL_DEN) by (nonlinear_arith)
        requires
            0 < d2 <= 8 * MAX_MAG * MAX_MAG,
    ;
    let den: i128 = d2 * (PULL_DEN as i128);
    proof {
        let (ni, ei) = (num as int, den as int);
        if ni >= 0 {
            assert(ni / ei <= ni) by (nonlinear_arith)
                requires
                    ni >= 0,
                    ei >= 1,
            ;
        } else {
            assert((-ni) / ei <= -ni) by (nonlinear_arith)
                requires
                    ni < 0,
                    ei >= 1,
            ;
        }
    }
    num / den
}

/// Body `i` and body `j` pull on each other for one tick.
fn pull_pair(bodies: &mut Vec<Body>, i: usize, j: usize, cfg: &Config, dt: i64)
    requires
        i < old(bodies)@.len(),
        j < old(bodies)@.len(),
        i != j,
        all_wf(old(bodies)@),
        cfg.wf(),
        0 <= dt <= MAX_DT,
    ensures
        final(bodies)@ == pair_pulled(old(bodies)@, i as int, j as int, *cfg, dt),
        all_wf(final(bodies)@),
{
    let a = bodies[i];
    let b = bodies[j];
    assert(old(bodies)@[i as int].wf() && old(bodies)@[j as int].wf());
    if a.is_static || b.is_static {
        return ;
    }
    let dx: i128 = b.position.x as i128 - a.position.x as i128;
    let dy: i128 = b.position.y as i128 - a.position.y as i128;
    proof {
        assert(0 <= dx * dx <= 4 * MAX_MAG * MAX_MAG) by (nonlinear_arith)
            requires
                -2 * MAX_MAG <= dx <= 2 * MAX_MAG,
        ;
        assert(0 <= dy * dy <= 4 * MAX_MAG * MAX_MAG) by (nonlinear_arith)
            requires
                -2 * MAX_MAG <= dy <= 2 * MAX_MAG,
        ;
    }
    let d2: i128 = dx * dx + dy * dy;
    assert(d2 == dist_sq(a, b));
    if d2 == 0 {
        return ;
    }
    match cfg.pull_cutoff_sq {
        Some(c) => {
            if d2 > c {
                return ;
            }
        },
        None => {},
    }
    let ax = pull_term(dx, d2, b.mass, cfg.pull_strength, dt);
    let ay = pull_term(dy, d2, b.mass, cfg.pull_strength, dt);
    let bx = pull_term(-dx, d2, a.mass, cfg.pull_strength, dt);
    let by = pull_term(-dy, d2, a.mass, cfg.pull_strength, dt);
    assert(dist_sq(b, a) == d2) by (nonlinear_arith)
        requires
            offset_x(b, a) == -dx,
            offset_y(b, a) == -dy,
            d2 == dx * dx + dy * dy,
    ;
    bodies[i] = Body {
        acceleration: Vec2 {
            x: saturate(a.acceleration.x as i128 + ax),
            y: saturate(a.acceleration.y as i128 + ay),
        },
        ..a
    };
    bodies[j] = Body {
        acceleration: Vec2 {
            x: saturate(b.acceleration.x as i128 + bx),
            y: saturate(b.acceleration.y as i128 + by),
        },
        ..b
    };
}

/// Every pair of dynamic bodies pulls on each other for one tick, pairs
/// taken in order of their first index and then their second.
pub fn apply_pull(bodies: &mut Vec<Body>, cfg: &Config, dt: i64)
    requires
        all_wf(old(bodies)@),
        cfg.wf(),
        0 <= dt <= MAX_DT,
    ensures
        final(bodies)@ == pulled_all(old(bodies)@, *cfg, dt),
        final(bodies)@.len() == old(bodies)@.len(),
        all_wf(final(bodies)@),
{
    let n = bodies.len();
    let ghost start = bodies@;
    let mut i: usize = 0;
    while i < n
        invariant
            0 <= i <= n,
            n == bodies.len(),
            start.len() == n,
            start == old(bodies)@,
            cfg.wf(),
            0 <= dt <= MAX_DT,
            bodies@ == pulled_upto(start, i as int, *cfg, dt),
            all_wf(bodies@),
        decreases n - i,
    {
        let mut j: usize = i + 1;
        while j < n
            invariant
                i < n,
                i + 1 <= j <= n,
                n == bodies.len(),
                start.len() == n,
                cfg.wf(),
                0 <= dt <= MAX_DT,
                bodies@ == pull_row(pulled_upto(start, i as int, *cfg, dt), i as int, j as int, *cfg, dt),
                all_wf(bodies@),
            decreases n - j,
        {
            pull_pair(bodies, i, j, cfg, dt);
            j += 1;
        }
        i += 1;
    }
}

} // verus!
