use platformer::body::{Body, Config};
use platformer::fixed::{Vec2, UNIT};
use platformer::player::{Controls, JumpPhase};
use platformer::world::World;

const DT: i64 = 15_625;

fn idle() -> Controls {
    Controls { jump: false, left: false, right: false }
}

fn floor() -> Body {
    Body::static_box(Vec2::new(0, -300 * UNIT), Vec2::new(500 * UNIT, 50 * UNIT), UNIT)
}

fn player_at(x: i64, y: i64) -> Body {
    Body::dynamic_box(Vec2::new(x, y), Vec2::new(50 * UNIT, 50 * UNIT), UNIT)
}

#[test]
fn player_resting_on_floor_lands_after_one_tick() {
    let mut world = World::new(vec![floor(), player_at(0, -200 * UNIT)], 1, Config::platformer())
        .unwrap();
    assert!(!world.jump.can_jump);
    let contacts = world.tick(idle(), DT);
    assert_eq!(contacts.len(), 1);
    let c = contacts[0];
    assert_eq!((c.a, c.b), (0, 1));
    // The normal at the floor points down, away from the player above it.
    assert_eq!(c.normal, Vec2::new(0, -1));
    assert_eq!(c.depth, 244);
    assert!(world.jump.can_jump);
    assert_eq!(world.jump.phase(), JumpPhase::Grounded);
    let p = world.player_body();
    assert_eq!(p.velocity, Vec2::new(0, -15_625));
    assert_eq!(p.position, Vec2::new(0, -200 * UNIT - 244));
}

#[test]
fn falling_player_lands_on_floor() {
    let wall = Body::static_box(Vec2::new(100 * UNIT, -300 * UNIT), Vec2::new(50 * UNIT, 500 * UNIT), UNIT);
    let mut world =
        World::new(vec![floor(), wall, player_at(-300 * UNIT, 0)], 2, Config::platformer()).unwrap();
    let mut ticks = 0;
    while !world.jump.can_jump {
        let contacts = world.tick(idle(), DT);
        // The floor and the wall overlap on every tick.
        assert!(contacts.iter().any(|c| (c.a, c.b) == (0, 1)));
        ticks += 1;
        assert!(ticks < 100);
    }
    assert!(world.player_body().position.y <= -200 * UNIT);
}

#[test]
fn jump_from_floor_rises() {
    let mut world = World::new(vec![floor(), player_at(0, -200 * UNIT)], 1, Config::platformer())
        .unwrap();
    world.tick(idle(), DT);
    assert!(world.jump.can_jump);
    world.tick(Controls { jump: true, left: false, right: true }, DT);
    assert_eq!(world.jump.phase(), JumpPhase::Rising);
    let p = world.player_body();
    // gravity's -15625 twice, then the boost of 156250 and a run step
    assert_eq!(p.velocity, Vec2::new(15_625, -31_250 + 156_250));
}

#[test]
fn invalid_worlds_are_refused() {
    let mut massless = player_at(0, 0);
    massless.mass = 0;
    assert!(World::new(vec![floor(), massless], 1, Config::platformer()).is_none());
    assert!(World::new(vec![floor()], 1, Config::platformer()).is_none());
    let mut cfg = Config::platformer();
    cfg.gravity = -1;
    assert!(!cfg.is_valid());
    assert!(World::new(vec![floor(), player_at(0, 0)], 1, cfg).is_none());
    assert!(World::new(vec![floor(), player_at(0, 0)], 1, Config::platformer()).is_some());
    // Static bodies exert no pull, so they may be massless.
    let mut light_floor = floor();
    light_floor.mass = 0;
    assert!(light_floor.is_valid());
    assert!(World::new(vec![light_floor, player_at(0, 0)], 1, Config::platformer()).is_some());
}
