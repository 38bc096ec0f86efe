//! The player controller: a jump state machine with variable-height jumps,
//! wall attachment and wall jumps, plus capped horizontal running.
use vstd::prelude::*;
use crate::body::Config;
use crate::collision::Contact;
use crate::fixed::{
    clamp_mag, lemma_per_tick_bound, per_tick, saturate, scale_by_dt, tdiv, Vec2, MAX_DT, MAX_MAG,
};

verus! {

/// Twice the square of a second, in microseconds squared: `g * dt * dt`
/// divided by it is the distance `g / 2 * dt^2`.
pub const FALL_DEN: i64 = 2_000_000_000_000;

/// The player's jump bookkeeping.
#[derive(Clone, Copy, Debug, PartialEq, Eq, Structural)]
pub struct PlayerJumpState {
    /// Armed by a ground contact; a jump press then starts a jump.
    pub can_jump: bool,
    /// Microseconds the current jump has been boosted; zero when not jumping.
    pub jump_hold: i64,
    /// The current jump no longer takes boosts.
    pub jump_released: bool,
    /// Touching a wall since the last jump start or landing.
    pub wall_attached: bool,
    /// A wall jump pushes toward positive x (the wall is on the left).
    pub wall_push_right: bool,
}

/// The four phases of vertical player motion.
#[derive(Clone, Copy, Debug, PartialEq, Eq, Structural)]
pub enum JumpPhase {
    Grounded,
    Rising,
    Cutoff,
    WallAttached,
}

/// How a contact surface is classified by its normal.
#[derive(Clone, Copy, Debug, PartialEq, Eq, Structural)]
pub enum SurfaceKind {
    /// The normal is within about 25 degrees of vertical.
    Ground,
    /// The normal is within about 6 degrees of horizontal.
    Wall,
    /// Neither: the contact is ignored.
    Other,
}

/// The keys held during a tick.
#[derive(Clone, Copy, Debug, PartialEq, Eq, Structural)]
pub struct Controls {
    pub jump: bool,
    pub left: bool,
    pub right: bool,
}

/// What the jump key does on a tick.
#[derive(Clone, Copy, Debug, PartialEq, Eq, Structural)]
pub enum JumpAction {
    /// No vertical boost.
    Coast,
    /// Upward boost, if below the rise-speed ceiling.
    Boost,
    /// Upward boost and a push away from the wall.
    WallJump,
}

/// The state every jump starts from and every landing returns to, before
/// the landing re-arms `can_jump`.
pub open spec fn cleared() -> PlayerJumpState {
    PlayerJumpState {
        can_jump: false,
        jump_hold: 0,
        jump_released: false,
        wall_attached: false,
        wall_push_right: false,
    }
}

/// Classification of a contact normal by the absolute cosine between it and
/// the vertical: below 0.1 a wall, above 0.9 the ground. Comparing squares
/// makes it independent of the normal's length.
pub open spec fn surface_of(n: Vec2) -> SurfaceKind {
    let ny2 = n.y * n.y;
    let len2 = n.x * n.x + n.y * n.y;
    if 100 * ny2 < len2 {
        SurfaceKind::Wall
    } else if 100 * ny2 > 81 * len2 {
        SurfaceKind::Ground
    } else {
        SurfaceKind::Other
    }
}

pub fn classify_normal(n: Vec2) -> (r: SurfaceKind)
    requires
        n.in_range(),
    ensures
        r == surface_of(n),
{
    let x = n.x as i128;
    let y = n.y as i128;
    proof {
        assert(0 <= x * x <= MAX_MAG * MAX_MAG) by (nonlinear_arith)
            requires
                -MAX_MAG <= x <= MAX_MAG,
        ;
        assert(0 <= y * y <= MAX_MAG * MAX_MAG) by (nonlinear_arith)
            requires
                -MAX_MAG <= y <= MAX_MAG,
        ;
    }
    let ny2: i128 = y * y;
    let len2: i128 = x * x + ny2;
    if 100 * ny2 < len2 {
        SurfaceKind::Wall
    } else if 100 * ny2 > 81 * len2 {
        SurfaceKind::Ground
    } else {
        SurfaceKind::Other
    }
}

/// How the player sees the surface of a contact: `None` when the contact
/// does not concern the player or is speculative.
pub fn contact_surface(c: &Contact, player: usize) -> (r: Option<SurfaceKind>)
    requires
        c.normal.in_range(),
    ensures
        r == if involves(*c, player) {
            Some(surface_of(normal_at(*c, player)))
        } else {
            None::<SurfaceKind>
        },
{
    if c.depth >= 0 && (c.a == player || c.b == player) {
        let normal = if c.a == player {
            c.normal
        } else {
            Vec2 { x: -c.normal.x, y: -c.normal.y }
        };
        Some(classify_normal(normal))
    } else {
        None
    }
}

/// The state after a contact with normal `n` (pointing away from the
/// surface, toward the player): a wall attaches the player, the ground
/// lands it and re-arms the jump, anything else changes nothing.
pub open spec fn after_contact(s: PlayerJumpState, n: Vec2) -> PlayerJumpState {
    match surface_of(n) {
        SurfaceKind::Wall => PlayerJumpState { wall_attached: true, wall_push_right: n.x > 0, ..s },
        SurfaceKind::Ground => PlayerJumpState { can_jump: true, ..cleared() },
        SurfaceKind::Other => s,
    }
}

/// The contact concerns the player and is not merely speculative.
pub open spec fn involves(c: Contact, player: usize) -> bool {
    c.depth >= 0 && (c.a == player || c.b == player)
}

/// The contact's normal at the player: as stored when the player is body
/// `a`, reversed when it is body `b`.
pub open spec fn normal_at(c: Contact, player: usize) -> Vec2 {
    if c.a == player {
        c.normal
    } else {
        Vec2 { x: -c.normal.x as i64, y: -c.normal.y as i64 }
    }
}

/// The state after the player reacts to each contact of `cs` in turn.
pub open spec fn after_contacts(s: PlayerJumpState, cs: Seq<Contact>, player: usize) -> PlayerJumpState
    decreases cs.len(),
{
    if cs.len() == 0 {
        s
    } else {
        let s0 = after_contacts(s, cs.drop_last(), player);
        if involves(cs.last(), player) {
            after_contact(s0, normal_at(cs.last(), player))
        } else {
            s0
        }
    }
}

/// Every contact's normal lies within the stored range.
pub open spec fn normals_in_range(cs: Seq<Contact>) -> bool {
    forall|k: int| 0 <= k < cs.len() ==> (#[trigger] cs[k]).normal.in_range()
}

/// What the jump key does from state `s`.
pub open spec fn jump_action(s: PlayerJumpState, jump_held: bool, cfg: Config) -> JumpAction {
    if !jump_held {
        JumpAction::Coast
    } else if s.can_jump {
        JumpAction::Boost
    } else if !s.jump_released && s.jump_hold > cfg.max_hold {
        JumpAction::Coast
    } else if s.jump_hold > 0 && !s.jump_released {
        JumpAction::Boost
    } else if s.wall_attached {
        JumpAction::WallJump
    } else {
        JumpAction::Coast
    }
}

/// The jump state after one tick of `dt` microseconds with the jump key
/// held or not. Starting a jump, from the ground or from a wall, restarts
/// the hold timer at this tick's length; holding on adds each tick's length
/// until the timer passes `max_hold`; letting go, or passing it, releases
/// the jump for good.
pub open spec fn next_jump_state(
    s: PlayerJumpState,
    jump_held: bool,
    dt: i64,
    cfg: Config,
) -> PlayerJumpState {
    if jump_held {
        if s.can_jump {
            PlayerJumpState { can_jump: false, jump_hold: dt, ..s }
        } else if !s.jump_released && s.jump_hold > cfg.max_hold {
            PlayerJumpState { jump_released: true, ..s }
        } else if s.jump_hold > 0 && !s.jump_released {
            PlayerJumpState { jump_hold: (s.jump_hold + dt) as i64, ..s }
        } else if s.wall_attached {
            PlayerJumpState { wall_attached: false, jump_hold: dt, jump_released: false, ..s }
        } else {
            s
        }
    } else if s.jump_hold > 0 {
        PlayerJumpState { jump_released: true, ..s }
    } else {
        s
    }
}

/// Horizontal velocity a wall jump adds: the jump boost over the tick,
/// pushing away from the wall.
pub open spec fn push_of(s: PlayerJumpState, input: Controls, dt: i64, cfg: Config) -> int {
    if jump_action(s, input.jump, cfg) == JumpAction::WallJump {
        if s.wall_push_right {
            per_tick(cfg.jump_accel as int, dt as int)
        } else {
            -per_tick(cfg.jump_accel as int, dt as int)
        }
    } else {
        0
    }
}

/// Horizontal velocity the run keys add to `vx`. A key acts while the speed
/// in its direction is below the cap, by one increment `run_accel * dt` but
/// never past the cap; when both keys act they cancel.
pub open spec fn run_step(vx: int, input: Controls, dt: i64, cfg: Config) -> int {
    let inc = per_tick(cfg.run_accel as int, dt as int);
    let cap = cfg.max_run_speed as int;
    let right = input.right && vx < cap;
    let left = input.left && -vx < cap;
    if right && left {
        0
    } else if right {
        if inc <= cap - vx {
            inc
        } else {
            cap - vx
        }
    } else if left {
        if inc <= cap + vx {
            -inc
        } else {
            -(cap + vx)
        }
    } else {
        0
    }
}

/// Vertical acceleration the controller applies: the jump boost while
/// below the rise-speed ceiling.
pub open spec fn rise_accel_of(s: PlayerJumpState, v: Vec2, input: Controls, cfg: Config) -> int {
    if jump_action(s, input.jump, cfg) != JumpAction::Coast && v.y < cfg.max_rise_speed {
        cfg.jump_accel as int
    } else {
        0
    }
}

/// The velocity after the controller's tick of `dt` microseconds.
pub open spec fn controlled_velocity(
    s: PlayerJumpState,
    v: Vec2,
    input: Controls,
    dt: i64,
    cfg: Config,
) -> Vec2 {
    Vec2 {
        x: clamp_mag(v.x + run_step(v.x as int, input, dt, cfg) + push_of(s, input, dt, cfg)) as i64,
        y: clamp_mag(v.y + per_tick(rise_accel_of(s, v, input, cfg), dt as int)) as i64,
    }
}

/// The position after the fast-fall nudge: while a jump is under way and
/// the player descends, it sinks a further `g / 2 * dt^2`.
pub open spec fn fast_fall_position(
    s: PlayerJumpState,
    position: Vec2,
    velocity: Vec2,
    dt: i64,
    cfg: Config,
) -> Vec2 {
    if s.jump_hold > 0 && velocity.y < 0 {
        Vec2 {
            y: clamp_mag(position.y - tdiv(cfg.gravity * dt * dt, FALL_DEN as int)) as i64,
            ..position
        }
    } else {
        position
    }
}

/// The jump state and velocity after `n` controller ticks with the same
/// keys, tick length and tuning.
pub open spec fn run_ticks(
    s: PlayerJumpState,
    v: Vec2,
    input: Controls,
    dt: i64,
    cfg: Config,
    n: nat,
) -> (PlayerJumpState, Vec2)
    decreases n,
{
    if n == 0 {
        (s, v)
    } else {
        let (s0, v0) = run_ticks(s, v, input, dt, cfg, (n - 1) as nat);
        (next_jump_state(s0, input.jump, dt, cfg), controlled_velocity(s0, v0, input, dt, cfg))
    }
}

/// A tap of the jump key from the ground: the press starts a rising jump,
/// the release on the next tick cuts it off, and a ground contact lands
/// the player with the jump re-armed.
pub proof fn lemma_jump_tap(
    s: PlayerJumpState,
    dt: i64,
    cfg: Config,
    press: Controls,
    release: Controls,
    ground: Vec2,
)
    requires
        s.wf(),
        s.phase_of() == JumpPhase::Grounded,
        !s.wall_attached,
        cfg.wf(),
        0 < dt <= MAX_DT,
        press.jump,
        !release.jump,
        surface_of(ground) == SurfaceKind::Ground,
    ensures
        next_jump_state(s, press.jump, dt, cfg).phase_of() == JumpPhase::Rising,
        next_jump_state(next_jump_state(s, press.jump, dt, cfg), release.jump, dt, cfg).phase_of()
            == JumpPhase::Cutoff,
        after_contact(
            next_jump_state(next_jump_state(s, press.jump, dt, cfg), release.jump, dt, cfg),
            ground,
        ).phase_of() == JumpPhase::Grounded,
        after_contact(
            next_jump_state(next_jump_state(s, press.jump, dt, cfg), release.jump, dt, cfg),
            ground,
        ).can_jump,
{
}

/// A ground contact lands the player from any state, re-arming the jump.
pub proof fn lemma_ground_contact_lands(s: PlayerJumpState, n: Vec2)
    requires
        surface_of(n) == SurfaceKind::Ground,
    ensures
        after_contact(s, n).phase_of() == JumpPhase::Grounded,
        after_contact(s, n).can_jump,
        after_contact(s, n).wf(),
{
}

/// With no key held the controller leaves the velocity as it is.
pub proof fn lemma_idle_keeps_velocity(s: PlayerJumpState, v: Vec2, dt: i64, cfg: Config)
    requires
        v.in_range(),
    ensures
        controlled_velocity(s, v, Controls { jump: false, left: false, right: false }, dt, cfg)
            == v,
{
    assert(per_tick(0, dt as int) == 0);
}

/// Holding only the right key, from a horizontal velocity within the cap,
/// the controller's own steps raise it by one increment per tick until it
/// equals the cap, never carry it past the cap, and leave the vertical
/// velocity alone: after `n` ticks it is `min(cap, v.x + n * inc)`.
pub proof fn lemma_run_right_capped(
    s: PlayerJumpState,
    v: Vec2,
    input: Controls,
    dt: i64,
    cfg: Config,
    n: nat,
)
    requires
        cfg.wf(),
        0 <= dt <= MAX_DT,
        input.right,
        !input.left,
        !input.jump,
        v.in_range(),
        -cfg.max_run_speed <= v.x <= cfg.max_run_speed,
    ensures
        ({
            let x = run_ticks(s, v, input, dt, cfg, n).1.x as int;
            let inc = per_tick(cfg.run_accel as int, dt as int);
            let cap = cfg.max_run_speed as int;
            &&& -cap <= x <= cap
            &&& x == if v.x + n * inc <= cap {
                v.x + n * inc
            } else {
                cap
            }
            &&& inc > 0 && n * inc >= cap - v.x ==> x == cap
            &&& run_ticks(s, v, input, dt, cfg, n).1.y == v.y
        }),
    decreases n,
{
    let inc = per_tick(cfg.run_accel as int, dt as int);
    let cap = cfg.max_run_speed as int;
    lemma_per_tick_bound(cfg.run_accel as int, dt as int);
    assert(per_tick(0, dt as int) == 0);
    let ni = n as int;
    if n == 0 {
        assert(0 * inc == 0);
    } else {
        let m = (n - 1) as nat;
        let mi = m as int;
        lemma_run_right_capped(s, v, input, dt, cfg, m);
        let (s0, v0) = run_ticks(s, v, input, dt, cfg, m);
        assert(run_ticks(s, v, input, dt, cfg, n).1 == controlled_velocity(s0, v0, input, dt, cfg));
        assert(jump_action(s0, input.jump, cfg) == JumpAction::Coast);
        assert(ni * inc == mi * inc + inc) by (nonlinear_arith)
            requires
                ni == mi + 1,
        ;
        assert(mi * inc >= 0 && ni * inc >= 0) by (nonlinear_arith)
            requires
                mi >= 0,
                ni >= 0,
                inc >= 0,
        ;
    }
}

/// The mirror image for the left key: after `n` ticks the horizontal
/// velocity is `max(-cap, v.x - n * inc)`, never past the cap.
pub proof fn lemma_run_left_capped(
    s: PlayerJumpState,
    v: Vec2,
    input: Controls,
    dt: i64,
    cfg: Config,
    n: nat,
)
    requires
        cfg.wf(),
        0 <= dt <= MAX_DT,
        input.left,
        !input.right,
        !input.jump,
        v.in_range(),
        -cfg.max_run_speed <= v.x <= cfg.max_run_speed,
    ensures
        ({
            let x = run_ticks(s, v, input, dt, cfg, n).1.x as int;
            let inc = per_tick(cfg.run_accel as int, dt as int);
            let cap = cfg.max_run_speed as int;
            &&& -cap <= x <= cap
            &&& x == if v.x - n * inc >= -cap {
                v.x - n * inc
            } else {
                -cap
            }
            &&& inc > 0 && n * inc >= cap + v.x ==> x == -cap
            &&& run_ticks(s, v, input, dt, cfg, n).1.y == v.y
        }),
    decreases n,
{
    let inc = per_tick(cfg.run_accel as int, dt as int);
    lemma_per_tick_bound(cfg.run_accel as int, dt as int);
    assert(per_tick(0, dt as int) == 0);
    let ni = n as int;
    if n == 0 {
        assert(0 * inc == 0);
    } else {
        let m = (n - 1) as nat;
        let mi = m as int;
        lemma_run_left_capped(s, v, input, dt, cfg, m);
        let (s0, v0) = run_ticks(s, v, input, dt, cfg, m);
        assert(run_ticks(s, v, input, dt, cfg, n).1 == controlled_velocity(s0, v0, input, dt, cfg));
        assert(jump_action(s0, input.jump, cfg) == JumpAction::Coast);
        assert(ni * inc == mi * inc + inc) by (nonlinear_arith)
            requires
                ni == mi + 1,
        ;
        assert(mi * inc >= 0 && ni * inc >= 0) by (nonlinear_arith)
            requires
                mi >= 0,
                ni >= 0,
                inc >= 0,
        ;
    }
}

impl PlayerJumpState {
    /// A jump can only be armed while none is under way, and the hold timer
    /// stays within the bound its increments reach.
    pub open spec fn wf(self) -> bool {
        &&& self.can_jump ==> self.jump_hold == 0 && !self.jump_released
        &&& 0 <= self.jump_hold <= MAX_MAG + MAX_DT
    }

    pub fn is_valid(&self) -> (r: bool)
        ensures
            r == self.wf(),
    {
        (!self.can_jump || (self.jump_hold == 0 && !self.jump_released)) && 0 <= self.jump_hold
            && self.jump_hold <= MAX_MAG + MAX_DT
    }

    pub open spec fn phase_of(self) -> JumpPhase {
        if self.can_jump {
            JumpPhase::Grounded
        } else if self.jump_hold > 0 && !self.jump_released {
            JumpPhase::Rising
        } else if self.wall_attached {
            JumpPhase::WallAttached
        } else {
            JumpPhase::Cutoff
        }
    }

    pub fn phase(&self) -> (r: JumpPhase)
        ensures
            r == self.phase_of(),
    {
        if self.can_jump {
            JumpPhase::Grounded
        } else if self.jump_hold > 0 && !self.jump_released {
            JumpPhase::Rising
        } else if self.wall_attached {
            JumpPhase::WallAttached
        } else {
            JumpPhase::Cutoff
        }
    }

    /// Forgets the current jump and any wall attachment.
    pub fn reset_jump(&mut self)
        ensures
            *final(self) == cleared(),
    {
        *self = PlayerJumpState {
            can_jump: false,
            jump_hold: 0,
            jump_released: false,
            wall_attached: false,
            wall_push_right: false,
        };
    }

    /// Reacts to a contact whose normal `normal` points from the surface
    /// toward the player.
    pub fn handle_contact(&mut self, normal: Vec2)
        requires
            old(self).wf(),
            normal.in_range(),
        ensures
            *final(self) == after_contact(*old(self), normal),
            final(self).wf(),
    {
        match classify_normal(normal) {
            SurfaceKind::Wall => {
                self.wall_attached = true;
                self.wall_push_right = normal.x > 0;
            },
            SurfaceKind::Ground => {
                self.reset_jump();
                self.can_jump = true;
            },
            SurfaceKind::Other => {},
        }
    }

    /// Reacts to each contact of this tick that involves the player, in
    /// order; contacts with a negative depth are speculative and ignored.
    pub fn handle_contacts(&mut self, contacts: &Vec<Contact>, player: usize)
        requires
            old(self).wf(),
            normals_in_range(contacts@),
        ensures
            *final(self) == after_contacts(*old(self), contacts@, player),
            final(self).wf(),
    {
        let n = contacts.len();
        let mut k: usize = 0;
        while k < n
            invariant
                0 <= k <= n,
                n == contacts.len(),
                normals_in_range(contacts@),
                *self == after_contacts(*old(self), contacts@.subrange(0, k as int), player),
                self.wf(),
            decreases n - k,
        {
            let c = contacts[k];
            assert(contacts@.subrange(0, k + 1).drop_last() =~= contacts@.subrange(0, k as int));
            assert(contacts@.subrange(0, k + 1).last() == c);
            assert(c.normal.in_range());
            if c.depth >= 0 && (c.a == player || c.b == player) {
                let normal = if c.a == player {
                    c.normal
                } else {
                    Vec2 { x: -c.normal.x, y: -c.normal.y }
                };
                self.handle_contact(normal);
            }
            k += 1;
        }
        assert(contacts@.subrange(0, n as int) =~= contacts@);
    }

    /// What the jump key does this tick.
    pub fn jump_action(&self, jump_held: bool, cfg: &Config) -> (r: JumpAction)
        ensures
            r == jump_action(*self, jump_held, *cfg),
    {
        if !jump_held {
            JumpAction::Coast
        } else if self.can_jump {
            JumpAction::Boost
        } else if !self.jump_released && self.jump_hold > cfg.max_hold {
            JumpAction::Coast
        } else if self.jump_hold > 0 && !self.jump_released {
            JumpAction::Boost
        } else if self.wall_attached {
            JumpAction::WallJump
        } else {
            JumpAction::Coast
        }
    }

    /// One tick of the controller: advances the jump state from the keys
    /// held and returns the player's new velocity.
    pub fn control(&mut self, velocity: Vec2, input: Controls, dt: i64, cfg: &Config) -> (r: Vec2)
        requires
            old(self).wf(),
            cfg.wf(),
            0 <= dt <= MAX_DT,
        ensures
            *final(self) == next_jump_state(*old(self), input.jump, dt, *cfg),
            r == controlled_velocity(*old(self), velocity, input, dt, *cfg),
            final(self).wf(),
    {
        let action = self.jump_action(input.jump, cfg);
        if input.jump {
            if self.can_jump {
                self.can_jump = false;
                self.jump_hold = dt;
            } else if !self.jump_released && self.jump_hold > cfg.max_hold {
                self.jump_released = true;
            } else if self.jump_hold > 0 && !self.jump_released {
                self.jump_hold = self.jump_hold + dt;
            } else if self.wall_attached {
                self.wall_attached = false;
                self.jump_hold = dt;
                self.jump_released = false;
            }
        } else if self.jump_hold > 0 {
            self.jump_released = true;
        }
        let mut ay: i64 = 0;
        if action != JumpAction::Coast && velocity.y < cfg.max_rise_speed {
            ay = cfg.jump_accel;
        }
        let dvy = scale_by_dt(ay, dt);
        let inc = scale_by_dt(cfg.run_accel, dt);
        let boost = scale_by_dt(cfg.jump_accel, dt);
        proof {
            lemma_per_tick_bound(ay as int, dt as int);
            lemma_per_tick_bound(cfg.run_accel as int, dt as int);
            lemma_per_tick_bound(cfg.jump_accel as int, dt as int);
        }
        let push: i128 = if action == JumpAction::WallJump {
            if self.wall_push_right {
                boost
            } else {
                -boost
            }
        } else {
            0
        };
        let vx = velocity.x as i128;
        let cap = cfg.max_run_speed as i128;
        let right = input.right && vx < cap;
        let left = input.left && -vx < cap;
        let run: i128 = if right && left {
            0
        } else if right {
            if inc <= cap - vx {
                inc
            } else {
                cap - vx
            }
        } else if left {
            if inc <= cap + vx {
                -inc
            } else {
                -(cap + vx)
            }
        } else {
            0
        };
        let dvx = run + push;
        Vec2 { x: saturate(velocity.x as i128 + dvx), y: saturate(velocity.y as i128 + dvy) }
    }

    /// The player's position after the fast-fall nudge.
    pub fn fast_fall(&self, position: Vec2, velocity: Vec2, dt: i64, cfg: &Config) -> (r: Vec2)
        requires
            cfg.wf(),
            0 <= dt <= MAX_DT,
        ensures
            r == fast_fall_position(*self, position, velocity, dt, *cfg),
    {
        if self.jump_hold > 0 && velocity.y < 0 {
            proof {
                assert(0 <= cfg.gravity * dt <= MAX_MAG * MAX_DT && 0 <= cfg.gravity * dt * dt
                    <= MAX_MAG * MAX_DT * MAX_DT) by (nonlinear_arith)
                    requires
                        0 <= cfg.gravity <= MAX_MAG,
                        0 <= dt <= MAX_DT,
                ;
            }
            let g: i128 = (cfg.gravity as i128) * (dt as i128) * (dt as i128);
            let drop: i128 = g / (FALL_DEN as i128);
            Vec2 { x: position.x, y: saturate(position.y as i128 - drop) }
        } else {
            position
        }
    }
}

impl Default for PlayerJumpState {
    fn default() -> (r: PlayerJumpState)
        ensures
            r == cleared(),
    {
        PlayerJumpState {
            can_jump: false,
            jump_hold: 0,
            jump_released: false,
            wall_attached: false,
            wall_push_right: false,
        }
    }
}

} // verus!
