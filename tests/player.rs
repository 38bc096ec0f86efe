use platformer::body::Config;
use platformer::fixed::{Vec2, MICROS};
use platformer::collision::Contact;
use platformer::player::{
    classify_normal, contact_surface, Controls, JumpPhase, PlayerJumpState, SurfaceKind,
};

const DT: i64 = 15_625;

fn keys(jump: bool, left: bool, right: bool) -> Controls {
    Controls { jump, left, right }
}

fn grounded() -> PlayerJumpState {
    let mut s = PlayerJumpState::default();
    s.handle_contact(Vec2::new(0, 1));
    s
}

#[test]
fn default_state_is_airborne_without_jump() {
    let s = PlayerJumpState::default();
    assert!(!s.can_jump && s.jump_hold == 0 && !s.jump_released && !s.wall_attached);
    assert_eq!(s.phase(), JumpPhase::Cutoff);
}

#[test]
fn classifies_normals() {
    assert_eq!(classify_normal(Vec2::new(0, 1)), SurfaceKind::Ground);
    assert_eq!(classify_normal(Vec2::new(0, -1)), SurfaceKind::Ground);
    assert_eq!(classify_normal(Vec2::new(1, 0)), SurfaceKind::Wall);
    assert_eq!(classify_normal(Vec2::new(-1, 0)), SurfaceKind::Wall);
    assert_eq!(classify_normal(Vec2::new(1, 1)), SurfaceKind::Other);
    assert_eq!(classify_normal(Vec2::new(0, 0)), SurfaceKind::Other);
    // cos = 0.95 from vertical: ground; cos = 0.05: wall.
    assert_eq!(classify_normal(Vec2::new(312, 950)), SurfaceKind::Ground);
    assert_eq!(classify_normal(Vec2::new(998, 50)), SurfaceKind::Wall);
    // cos = 0.5: dead zone.
    assert_eq!(classify_normal(Vec2::new(866, 500)), SurfaceKind::Other);
}

#[test]
fn ground_contact_arms_jump() {
    let s = grounded();
    assert!(s.can_jump);
    assert_eq!(s.phase(), JumpPhase::Grounded);
}

#[test]
fn jump_tap_rises_then_cuts_off_then_lands() {
    let cfg = Config::platformer();
    let mut s = grounded();
    let v = s.control(Vec2::new(0, 0), keys(true, false, false), DT, &cfg);
    assert_eq!(s.phase(), JumpPhase::Rising);
    assert_eq!(s.jump_hold, DT);
    // 10000 units per second squared over 1/64 s
    assert_eq!(v, Vec2::new(0, 156_250));
    let v = s.control(v, keys(false, false, false), DT, &cfg);
    assert_eq!(s.phase(), JumpPhase::Cutoff);
    assert!(s.jump_released);
    assert_eq!(v, Vec2::new(0, 156_250));
    s.handle_contact(Vec2::new(0, 1));
    assert_eq!(s.phase(), JumpPhase::Grounded);
    assert!(s.can_jump);
}

#[test]
fn held_jump_boosts_until_hold_limit() {
    let cfg = Config::platformer();
    let mut s = grounded();
    let mut boosts = 0;
    for _ in 0..40 {
        let v = s.control(Vec2::new(0, 0), keys(true, false, false), DT, &cfg);
        if v.y > 0 {
            boosts += 1;
        }
    }
    // Boosted while the hold time is at most half a second: 33 ticks.
    assert_eq!(boosts, 33);
    assert!(s.jump_released);
    assert_eq!(s.phase(), JumpPhase::Cutoff);
}

#[test]
fn no_boost_above_rise_ceiling() {
    let cfg = Config::platformer();
    let mut s = grounded();
    let v = s.control(Vec2::new(0, 300_000), keys(true, false, false), DT, &cfg);
    assert_eq!(v, Vec2::new(0, 300_000));
    assert_eq!(s.phase(), JumpPhase::Rising);
}

#[test]
fn released_jump_takes_no_more_boost() {
    let cfg = Config::platformer();
    let mut s = grounded();
    s.control(Vec2::new(0, 0), keys(true, false, false), DT, &cfg);
    s.control(Vec2::new(0, 0), keys(false, false, false), DT, &cfg);
    let v = s.control(Vec2::new(0, 0), keys(true, false, false), DT, &cfg);
    assert_eq!(v, Vec2::new(0, 0));
    assert_eq!(s.phase(), JumpPhase::Cutoff);
}

#[test]
fn wall_jump_pushes_away_from_wall() {
    let cfg = Config::platformer();
    let mut s = grounded();
    s.control(Vec2::new(0, 0), keys(true, false, false), DT, &cfg);
    s.control(Vec2::new(0, 0), keys(false, false, false), DT, &cfg);
    // The wall is on the right: its normal at the player points left.
    s.handle_contact(Vec2::new(-1, 0));
    assert_eq!(s.phase(), JumpPhase::WallAttached);
    let v = s.control(Vec2::new(5000, -1000), keys(true, false, false), DT, &cfg);
    assert_eq!(v, Vec2::new(5000 - 156_250, -1000 + 156_250));
    assert_eq!(s.phase(), JumpPhase::Rising);
    assert!(!s.wall_attached);

    let mut s = grounded();
    s.control(Vec2::new(0, 0), keys(true, false, false), DT, &cfg);
    s.control(Vec2::new(0, 0), keys(false, false, false), DT, &cfg);
    s.handle_contact(Vec2::new(1, 0));
    let v = s.control(Vec2::new(0, 0), keys(true, false, false), DT, &cfg);
    assert_eq!(v, Vec2::new(156_250, 156_250));
}

#[test]
fn run_speed_reaches_cap_exactly() {
    let cfg = Config::platformer();
    let dt = MICROS / 100; // increments of 10 units per second
    let mut s = PlayerJumpState::default();
    let mut v = Vec2::new(0, 0);
    for n in 1..=50 {
        v = s.control(v, keys(false, false, true), dt, &cfg);
        assert!(v.x <= cfg.max_run_speed);
        assert_eq!(v.x, std::cmp::min(n * 10_000, cfg.max_run_speed));
    }
    assert_eq!(v.x, cfg.max_run_speed);
    let mut v = Vec2::new(0, 0);
    for _ in 0..50 {
        v = s.control(v, keys(false, true, false), dt, &cfg);
        assert!(-v.x <= cfg.max_run_speed);
    }
    assert_eq!(v.x, -cfg.max_run_speed);
}

#[test]
fn run_cap_not_passed_by_uneven_increments() {
    // At 1/64 s ticks the increment does not divide the cap: the last step
    // below the cap stops at the cap.
    let cfg = Config::platformer();
    let mut s = PlayerJumpState::default();
    let mut v = Vec2::new(0, 0);
    for n in 1..=40 {
        v = s.control(v, keys(false, false, true), DT, &cfg);
        assert_eq!(v.x, std::cmp::min(n * 15_625, 300_000));
    }
    assert_eq!(v.x, 300_000);
    let v = s.control(Vec2::new(299_999, 0), keys(false, false, true), DT, &cfg);
    assert_eq!(v.x, 300_000);
    let v = s.control(Vec2::new(-299_999, 0), keys(false, true, false), DT, &cfg);
    assert_eq!(v.x, -300_000);
}

#[test]
fn run_key_adds_nothing_at_or_past_cap() {
    let cfg = Config::platformer();
    let mut s = PlayerJumpState::default();
    let v = s.control(Vec2::new(300_000, 0), keys(false, false, true), DT, &cfg);
    assert_eq!(v.x, 300_000);
    // Past the cap in one direction, the other key still slows by a step.
    let v = s.control(Vec2::new(400_000, 0), keys(false, true, true), DT, &cfg);
    assert_eq!(v.x, 400_000 - 15_625);
}

#[test]
fn idle_keys_keep_velocity() {
    let cfg = Config::platformer();
    let mut s = PlayerJumpState::default();
    let v = s.control(Vec2::new(-1234, 5678), keys(false, false, false), DT, &cfg);
    assert_eq!(v, Vec2::new(-1234, 5678));
}

#[test]
fn opposite_keys_cancel() {
    let cfg = Config::platformer();
    let mut s = PlayerJumpState::default();
    let v = s.control(Vec2::new(100, 0), keys(false, true, true), DT, &cfg);
    assert_eq!(v, Vec2::new(100, 0));
}

#[test]
fn fast_fall_sinks_descending_jumper() {
    let cfg = Config::platformer();
    let mut s = grounded();
    s.control(Vec2::new(0, 0), keys(true, false, false), DT, &cfg);
    let p = s.fast_fall(Vec2::new(10, 0), Vec2::new(0, -1), DT, &cfg);
    // g / 2 * dt^2 = 1000 units / 2 * (1/64 s)^2
    assert_eq!(p, Vec2::new(10, -122));
    let p = s.fast_fall(Vec2::new(10, 0), Vec2::new(0, 1), DT, &cfg);
    assert_eq!(p, Vec2::new(10, 0));
    let p = grounded().fast_fall(Vec2::new(10, 0), Vec2::new(0, -1), DT, &cfg);
    assert_eq!(p, Vec2::new(10, 0));
}

#[test]
fn reset_jump_clears_everything() {
    let mut s = grounded();
    s.wall_attached = true;
    s.reset_jump();
    assert_eq!(s, PlayerJumpState::default());
}

#[test]
fn contacts_seen_from_the_player() {
    let below = Contact { a: 0, b: 1, normal: Vec2::new(0, -1), depth: 5 };
    assert_eq!(contact_surface(&below, 1), Some(SurfaceKind::Ground));
    assert_eq!(contact_surface(&below, 2), None);
    let speculative = Contact { a: 1, b: 0, normal: Vec2::new(1, 0), depth: -1 };
    assert_eq!(contact_surface(&speculative, 1), None);

    let mut s = PlayerJumpState::default();
    let side = Contact { a: 3, b: 1, normal: Vec2::new(1, 0), depth: 2 };
    s.handle_contacts(&vec![speculative, side], 1);
    // Seen from body 1 the normal points left: the wall is on its right.
    assert!(s.wall_attached && !s.wall_push_right);
    s.handle_contacts(&vec![Contact { a: 2, b: 3, normal: Vec2::new(0, 1), depth: 9 }], 1);
    assert!(!s.can_jump);
    s.handle_contacts(&vec![below], 1);
    assert!(s.can_jump && !s.wall_attached);
}
