//! A whole simulation: the bodies, the player's jump state and the tuning,
//! advanced one tick at a time.
//!
//! Each tick runs, in order: constant gravity, the pairwise pull,
//! integration with damping, the player's fast-fall nudge, collision
//! detection, the player's reaction to this tick's contacts, and finally
//! the controller, whose velocity change takes effect on the next tick.
use vstd::prelude::*;
use crate::body::{all_wf, Body, Config, Rotation, ROT_ONE};
use crate::collision::{
    all_contacts, collide, contact_between, contacts_upto, detect_collisions,
    lemma_unrotated_aabb, row_contacts, Contact,
};
use crate::fixed::{lemma_per_tick_bound, per_tick, tdiv, Vec2};
use crate::forces::{
    apply_gravity, apply_pull, gravity_all, pair_pulled, pull_row, pulled_all, pulled_upto,
};
use crate::integrate::{damped, integrate, integrate_all, lemma_damped};
use crate::player::{
    after_contact, after_contacts, cleared, controlled_velocity, fast_fall_position, involves,
    next_jump_state, normal_at, surface_of, Controls, JumpPhase, PlayerJumpState, SurfaceKind,
    FALL_DEN,
};

verus! {

/// The simulated scene.
pub struct World {
    pub bodies: Vec<Body>,
    /// Index of the player's body.
    pub player: usize,
    pub jump: PlayerJumpState,
    pub config: Config,
}

/// The bodies after the forces, the integration and the player's
/// fast-fall nudge of one tick.
pub open spec fn moved_bodies(
    s: Seq<Body>,
    player: int,
    jump: PlayerJumpState,
    cfg: Config,
    dt: i64,
) -> Seq<Body> {
    let m = integrate_all(pulled_all(gravity_all(s, cfg, dt), cfg, dt), cfg, dt);
    let p = m[player];
    m.update(player, Body { position: fast_fall_position(jump, p.position, p.velocity, dt, cfg), ..p })
}

/// The contacts a tick reports.
pub open spec fn tick_contacts(
    s: Seq<Body>,
    player: int,
    jump: PlayerJumpState,
    cfg: Config,
    dt: i64,
) -> Seq<Contact> {
    all_contacts(moved_bodies(s, player, jump, cfg, dt))
}

/// The player's jump state after reacting to a tick's contacts, before
/// the controller runs.
pub open spec fn landed_jump(
    s: Seq<Body>,
    player: int,
    jump: PlayerJumpState,
    cfg: Config,
    dt: i64,
) -> PlayerJumpState {
    after_contacts(jump, tick_contacts(s, player, jump, cfg, dt), player as usize)
}

/// The player's jump state at the end of a tick.
pub open spec fn tick_jump(
    s: Seq<Body>,
    player: int,
    jump: PlayerJumpState,
    input: Controls,
    cfg: Config,
    dt: i64,
) -> PlayerJumpState {
    next_jump_state(landed_jump(s, player, jump, cfg, dt), input.jump, dt, cfg)
}

/// The bodies at the end of a tick: moved, with the player's velocity as
/// the controller leaves it.
pub open spec fn tick_bodies(
    s: Seq<Body>,
    player: int,
    jump: PlayerJumpState,
    input: Controls,
    cfg: Config,
    dt: i64,
) -> Seq<Body> {
    let m = moved_bodies(s, player, jump, cfg, dt);
    let p = m[player];
    m.update(
        player,
        Body {
            velocity: controlled_velocity(
                landed_jump(s, player, jump, cfg, dt),
                p.velocity,
                input,
                dt,
                cfg,
            ),
            ..p
        },
    )
}

/// How far a body at rest sinks over one tick: the distance covered with
/// the velocity gravity gives it, plus the fast-fall nudge when a jump is
/// under way.
pub open spec fn rest_drop(jump: PlayerJumpState, cfg: Config, dt: i64) -> int {
    let g1 = per_tick(cfg.gravity as int, dt as int);
    let nudge = if jump.jump_hold > 0 && damped(-g1, cfg.damping * dt) < 0 {
        tdiv(cfg.gravity * dt * dt, FALL_DEN as int)
    } else {
        0
    };
    per_tick(g1, dt as int) + nudge
}

/// A player at rest on a static floor directly below it, in whatever jump
/// state, lands within one tick: the tick reports one contact, between the
/// floor and the player, which the player classifies as ground, and the
/// reaction to it leaves the player grounded with the jump re-armed. This
/// holds while the tick's sink stays within the floor's half height and
/// both half widths; a longer tick carries the player through the floor.
pub proof fn lemma_resting_player_lands(
    floor: Body,
    player: Body,
    jump: PlayerJumpState,
    cfg: Config,
    dt: i64,
)
    requires
        floor.wf(),
        player.wf(),
        jump.wf(),
        cfg.wf(),
        cfg.tick_ok(dt),
        floor.is_static,
        floor.has_collider,
        floor.rotation == (Rotation { cos: ROT_ONE, sin: 0 }),
        !player.is_static,
        player.affected_by_gravity,
        player.has_collider,
        player.rotation == (Rotation { cos: ROT_ONE, sin: 0 }),
        player.velocity == (Vec2 { x: 0, y: 0 }),
        player.acceleration == (Vec2 { x: 0, y: 0 }),
        player.position.x == floor.position.x,
        player.position.y - player.half_extents.y == floor.position.y + floor.half_extents.y,
        rest_drop(jump, cfg, dt) <= floor.half_extents.y,
        rest_drop(jump, cfg, dt) <= floor.half_extents.x,
        rest_drop(jump, cfg, dt) <= player.half_extents.x,
    ensures
        ({
            let s = seq![floor, player];
            let cs = tick_contacts(s, 1, jump, cfg, dt);
            &&& cs.len() == 1
            &&& cs[0].a == 0 && cs[0].b == 1
            &&& surface_of(normal_at(cs[0], 1)) == SurfaceKind::Ground
            &&& landed_jump(s, 1, jump, cfg, dt).can_jump
            &&& landed_jump(s, 1, jump, cfg, dt).phase_of() == JumpPhase::Grounded
        }),
{
    let s = seq![floor, player];
    let g = cfg.gravity as int;
    let cdt = cfg.damping * dt;
    let g1 = per_tick(g, dt as int);
    lemma_per_tick_bound(g, dt as int);
    lemma_per_tick_bound(g1, dt as int);
    let fall = per_tick(g1, dt as int);
    assert((-g1) * dt == -(g1 * dt)) by (nonlinear_arith);
    assert(per_tick(-g1, dt as int) == -fall);
    assert(per_tick(0, dt as int) == 0);
    assert(0 <= cfg.damping * dt) by (nonlinear_arith)
        requires
            0 <= cfg.damping,
            0 <= dt,
    ;
    lemma_damped(-g1, cdt);
    assert(0 <= cfg.gravity * dt * dt) by (nonlinear_arith)
        requires
            0 <= cfg.gravity,
            0 <= dt,
    ;
    let drop = rest_drop(jump, cfg, dt);
    assert(drop >= 0);
    // Gravity gives the player a downward velocity; the floor stays put.
    let gs = gravity_all(s, cfg, dt);
    let p1 = gs[1];
    assert(gs[0] == floor);
    assert(p1.velocity.y == -g1);
    // No pull: the floor is static.
    assert(pull_row(gs, 0, 1, cfg, dt) == gs);
    assert(pair_pulled(gs, 0, 1, cfg, dt) == gs);
    assert(pulled_upto(gs, 0, cfg, dt) == gs);
    assert(pulled_upto(gs, 1, cfg, dt) == pull_row(gs, 0, 2, cfg, dt));
    assert(pulled_upto(gs, 2, cfg, dt) == pull_row(gs, 1, 2, cfg, dt));
    assert(pulled_all(gs, cfg, dt) == gs);
    // Integration moves the player down by `fall`.
    let ints = integrate_all(gs, cfg, dt);
    let p2 = ints[1];
    assert(ints[0] == floor);
    assert(p2.position.x == player.position.x);
    assert(p2.position.y == player.position.y - fall);
    assert(p2.velocity.y == damped(-g1, cdt));
    let m = moved_bodies(s, 1, jump, cfg, dt);
    let p3 = m[1];
    assert(m[0] == floor);
    assert(p3.position.x == player.position.x);
    assert(p3.position.y == player.position.y - drop);
    assert(p3.half_extents == player.half_extents && p3.rotation == player.rotation);
    assert(p3.has_collider);
    lemma_unrotated_aabb(floor);
    lemma_unrotated_aabb(p3);
    assert(collide(m, 0, 1));
    let c = contact_between(m, 0, 1);
    assert(c.normal.x == 0 && (c.normal.y == 1 || c.normal.y == -1));
    assert(c.depth >= 0);
    assert(row_contacts(m, 0, 1) == Seq::<Contact>::empty());
    assert(row_contacts(m, 0, 2) =~= seq![c]);
    assert(row_contacts(m, 1, 2) == Seq::<Contact>::empty());
    assert(contacts_upto(m, 0) == Seq::<Contact>::empty());
    assert(contacts_upto(m, 1) =~= seq![c]);
    assert(contacts_upto(m, 2) =~= seq![c]);
    let cs = tick_contacts(s, 1, jump, cfg, dt);
    assert(cs == seq![c]);
    let n = normal_at(c, 1);
    assert(n.x == 0 && (n.y == 1 || n.y == -1));
    let ny = n.y as int;
    let nx = n.x as int;
    assert(ny * ny == 1 && nx * nx == 0) by (nonlinear_arith)
        requires
            nx == 0,
            ny == 1 || ny == -1,
    ;
    assert(surface_of(n) == SurfaceKind::Ground);
    assert(involves(c, 1));
    assert(cs.drop_last() =~= Seq::<Contact>::empty());
    assert(after_contacts(jump, cs.drop_last(), 1) == jump);
    assert(landed_jump(s, 1, jump, cfg, dt) == after_contact(jump, n));
}

impl World {
    pub open spec fn wf(&self) -> bool {
        &&& all_wf(self.bodies@)
        &&& self.player < self.bodies@.len()
        &&& self.jump.wf()
        &&& self.config.wf()
    }

    /// A world of the given bodies, with the player at index `player` and
    /// no jump under way; `None` unless every body and the tuning are well
    /// formed and the player exists.
    pub fn new(bodies: Vec<Body>, player: usize, config: Config) -> (r: Option<World>)
        ensures
            r is Some <==> (all_wf(bodies@) && player < bodies@.len() && config.wf()),
            r matches Some(w) ==> w.wf() && w.bodies@ == bodies@ && w.player == player
                && w.jump == cleared() && w.config == config,
    {
        if player >= bodies.len() || !config.is_valid() {
            return None;
        }
        let mut k: usize = 0;
        while k < bodies.len()
            invariant
                0 <= k <= bodies.len(),
                forall|i: int| 0 <= i < k ==> #[trigger] bodies@[i].wf(),
            decreases bodies.len() - k,
        {
            if !bodies[k].is_valid() {
                return None;
            }
            k += 1;
        }
        Some(World { bodies, player, jump: PlayerJumpState::default(), config })
    }

    /// Advances the world by one tick of `dt` microseconds with the keys
    /// `input` held, and returns the contacts of this tick.
    pub fn tick(&mut self, input: Controls, dt: i64) -> (r: Vec<Contact>)
        requires
            old(self).wf(),
            old(self).config.tick_ok(dt),
        ensures
            final(self).wf(),
            final(self).player == old(self).player,
            final(self).config == old(self).config,
            r@ == tick_contacts(
                old(self).bodies@,
                old(self).player as int,
                old(self).jump,
                old(self).config,
                dt,
            ),
            final(self).jump == tick_jump(
                old(self).bodies@,
                old(self).player as int,
                old(self).jump,
                input,
                old(self).config,
                dt,
            ),
            final(self).bodies@ == tick_bodies(
                old(self).bodies@,
                old(self).player as int,
                old(self).jump,
                input,
                old(self).config,
                dt,
            ),
    {
        let cfg = self.config;
        let player = self.player;
        apply_gravity(&mut self.bodies, &cfg, dt);
        apply_pull(&mut self.bodies, &cfg, dt);
        integrate(&mut self.bodies, &cfg, dt);
        let p = self.bodies[player];
        assert(self.bodies@[player as int].wf());
        let fallen = self.jump.fast_fall(p.position, p.velocity, dt, &cfg);
        self.bodies[player] = Body { position: fallen, ..p };
        assert(self.bodies@[player as int].wf());
        let contacts = detect_collisions(&self.bodies);
        self.jump.handle_contacts(&contacts, player);
        let velocity = self.jump.control(p.velocity, input, dt, &cfg);
        self.bodies[player] = Body { velocity, position: fallen, ..p };
        assert(self.bodies@[player as int].wf());
        contacts
    }

    /// The player's body.
    pub fn player_body(&self) -> (r: Body)
        requires
            self.wf(),
        ensures
            r == self.bodies@[self.player as int],
    {
        self.bodies[self.player]
    }
}

} // verus!
