use platformer::body::{Body, Config};
use platformer::fixed::{Vec2, UNIT};
use platformer::integrate::integrate;

fn damped_config(damping: i64) -> Config {
    let mut cfg = Config::platformer();
    cfg.damping = damping;
    cfg
}

fn moving(vx: i64, vy: i64) -> Body {
    let mut b = Body::dynamic_box(Vec2::new(0, 0), Vec2::new(UNIT, UNIT), UNIT);
    b.velocity = Vec2::new(vx, vy);
    b
}

#[test]
fn position_follows_advanced_velocity() {
    let cfg = Config::platformer();
    let mut b = moving(1000, -2000);
    b.acceleration = Vec2::new(10_000, 0);
    let mut bodies = vec![b];
    integrate(&mut bodies, &cfg, 100_000);
    assert_eq!(bodies[0].velocity, Vec2::new(2000, -2000));
    assert_eq!(bodies[0].position, Vec2::new(200, -200));
    assert_eq!(bodies[0].acceleration, Vec2::new(10_000, 0));
}

#[test]
fn static_bodies_do_not_move() {
    let cfg = damped_config(500_000);
    let mut b = Body::static_box(Vec2::new(7, 7), Vec2::new(UNIT, UNIT), UNIT);
    b.velocity = Vec2::new(1000, 1000);
    let mut bodies = vec![b];
    integrate(&mut bodies, &cfg, 100_000);
    assert_eq!(bodies[0], b);
}

#[test]
fn damping_one_tick() {
    // c = 0.5 per second over 0.1 s removes 5% of the velocity.
    let cfg = damped_config(500_000);
    let mut bodies = vec![moving(1_000_000, -1_000_000)];
    integrate(&mut bodies, &cfg, 100_000);
    assert_eq!(bodies[0].velocity, Vec2::new(950_000, -950_000));
    integrate(&mut bodies, &cfg, 100_000);
    assert_eq!(bodies[0].velocity, Vec2::new(902_500, -902_500));
}

#[test]
fn damping_decays_geometrically_to_rest() {
    let cfg = damped_config(500_000);
    let v0: i64 = 1_000_000;
    let mut bodies = vec![moving(v0, -v0)];
    let mut bound = v0 as f64;
    let mut ticks = 0;
    while bodies[0].velocity.x != 0 {
        let before = bodies[0].velocity;
        integrate(&mut bodies, &cfg, 100_000);
        bound *= 0.95;
        let v = bodies[0].velocity;
        assert!(v.x >= 0 && v.x < before.x);
        assert_eq!(v.y, -v.x);
        assert!((v.x as f64) <= bound + 1e-6);
        ticks += 1;
        assert!(ticks <= v0);
    }
    assert_eq!(bodies[0].velocity, Vec2::new(0, 0));
}

#[test]
fn full_damping_stops_in_one_tick() {
    let cfg = damped_config(10_000_000);
    assert!(cfg.accepts_tick(100_000));
    assert!(!cfg.accepts_tick(100_001));
    let mut bodies = vec![moving(123_456, -7)];
    integrate(&mut bodies, &cfg, 100_000);
    assert_eq!(bodies[0].velocity, Vec2::new(0, 0));
}

#[test]
fn small_velocity_still_decays() {
    let cfg = damped_config(1);
    let mut bodies = vec![moving(3, 0)];
    integrate(&mut bodies, &cfg, 1);
    assert_eq!(bodies[0].velocity.x, 2);
}
