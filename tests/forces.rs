use platformer::body::{Body, Config};
use platformer::forces::{apply_gravity, apply_pull};
use platformer::fixed::{Vec2, MAX_MAG, MICROS, UNIT};

fn pull_config(strength: i64, cutoff: Option<i128>) -> Config {
    let mut cfg = Config::platformer();
    cfg.pull_strength = strength;
    cfg.pull_cutoff_sq = cutoff;
    cfg
}

fn floating(x: i64, y: i64, mass: i64) -> Body {
    let mut b = Body::dynamic_box(Vec2::new(x, y), Vec2::new(UNIT, UNIT), mass);
    b.affected_by_gravity = false;
    b
}

#[test]
fn gravity_slows_dynamic_bodies_only() {
    let cfg = Config::platformer();
    let floor = Body::static_box(Vec2::new(0, 0), Vec2::new(UNIT, UNIT), UNIT);
    let ball = Body::dynamic_box(Vec2::new(0, 0), Vec2::new(UNIT, UNIT), UNIT);
    let free = floating(0, 0, UNIT);
    let mut bodies = vec![floor, ball, free];
    apply_gravity(&mut bodies, &cfg, 15_625);
    assert_eq!(bodies[0], floor);
    assert_eq!(bodies[1].velocity, Vec2::new(0, -15_625));
    assert_eq!(bodies[2], free);
}

#[test]
fn gravity_saturates_velocity() {
    let cfg = Config::platformer();
    let mut ball = Body::dynamic_box(Vec2::new(0, 0), Vec2::new(UNIT, UNIT), UNIT);
    ball.velocity = Vec2::new(0, -MAX_MAG + 10);
    let mut bodies = vec![ball];
    apply_gravity(&mut bodies, &cfg, MICROS);
    assert_eq!(bodies[0].velocity.y, -MAX_MAG);
}

#[test]
fn pull_is_antisymmetric_scaled_by_other_mass() {
    let cfg = pull_config(1_000_000, None);
    let mut bodies = vec![floating(0, 0, 1000), floating(1000, 0, 2000)];
    apply_pull(&mut bodies, &cfg, MICROS);
    // d * G * m * dt / (d2 * 10^9): toward b with b's mass, toward a with a's.
    assert_eq!(bodies[0].acceleration, Vec2::new(2000, 0));
    assert_eq!(bodies[1].acceleration, Vec2::new(-1000, 0));
    assert_eq!(bodies[0].acceleration.x * 1000, -bodies[1].acceleration.x * 2000);
}

#[test]
fn equal_masses_pull_equally_and_oppositely() {
    let cfg = pull_config(1_000_000, None);
    let mut bodies = vec![floating(0, 0, 1000), floating(3000, 4000, 1000)];
    apply_pull(&mut bodies, &cfg, MICROS);
    let a = bodies[0].acceleration;
    let b = bodies[1].acceleration;
    // offset (3000, 4000), squared distance 25e6
    assert_eq!(a, Vec2::new(120, 160));
    assert_eq!(b, Vec2::new(-120, -160));
}

#[test]
fn coincident_pair_exerts_nothing() {
    let cfg = pull_config(1_000_000, None);
    let mut bodies = vec![floating(500, 500, 1000), floating(500, 500, 3000)];
    let before = bodies.clone();
    apply_pull(&mut bodies, &cfg, MICROS);
    assert_eq!(bodies, before);
}

#[test]
fn cutoff_skips_distant_pairs() {
    let cfg = pull_config(1_000_000, Some(1_000_000));
    let mut near = vec![floating(0, 0, 1000), floating(1000, 0, 1000)];
    apply_pull(&mut near, &cfg, MICROS);
    assert_ne!(near[0].acceleration, Vec2::new(0, 0));
    let mut far = vec![floating(0, 0, 1000), floating(1001, 0, 1000)];
    let before = far.clone();
    apply_pull(&mut far, &cfg, MICROS);
    assert_eq!(far, before);
}

#[test]
fn static_bodies_neither_pull_nor_are_pulled() {
    let cfg = pull_config(1_000_000, None);
    let anchor = Body::static_box(Vec2::new(0, 0), Vec2::new(UNIT, UNIT), 1000);
    let mut bodies = vec![anchor, floating(1000, 0, 1000)];
    let before = bodies.clone();
    apply_pull(&mut bodies, &cfg, MICROS);
    assert_eq!(bodies, before);
}

#[test]
fn three_bodies_sum_their_pulls() {
    let cfg = pull_config(1_000_000, None);
    let mut bodies = vec![floating(-1000, 0, 1000), floating(0, 0, 1000), floating(1000, 0, 1000)];
    apply_pull(&mut bodies, &cfg, MICROS);
    assert_eq!(bodies[1].acceleration, Vec2::new(0, 0));
    // 1000 from the middle body, 500 from the far one.
    assert_eq!(bodies[0].acceleration, Vec2::new(1500, 0));
    assert_eq!(bodies[2].acceleration, Vec2::new(-1500, 0));
}
