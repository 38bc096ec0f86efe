use platformer::body::{Body, Rotation};
use platformer::collision::{bodies_overlap, detect_collisions, Contact};
use platformer::fixed::{Vec2, UNIT};

fn square(x: i64, y: i64, half: i64) -> Body {
    Body::dynamic_box(Vec2::new(x, y), Vec2::new(half, half), UNIT)
}

#[test]
fn unit_squares_half_apart_overlap() {
    let a = square(0, 0, UNIT);
    let b = square(UNIT / 2, 0, UNIT);
    assert!(bodies_overlap(&a, &b));
}

#[test]
fn unit_squares_three_apart_do_not_overlap() {
    let a = square(0, 0, UNIT);
    let b = square(3 * UNIT, 0, UNIT);
    assert!(!bodies_overlap(&a, &b));
}

#[test]
fn touching_boxes_overlap() {
    let a = square(0, 0, UNIT);
    let b = square(2 * UNIT, 0, UNIT);
    assert!(bodies_overlap(&a, &b));
    let c = square(2 * UNIT + 1, 0, UNIT);
    assert!(!bodies_overlap(&a, &c));
}

#[test]
fn unrotated_box_bounds() {
    let b = Body::dynamic_box(Vec2::new(5000, -3000), Vec2::new(2000, 1000), UNIT);
    let r = b.aabb();
    assert_eq!((r.min_x, r.min_y, r.max_x, r.max_y), (3000, -4000, 7000, -2000));
}

#[test]
fn quarter_turn_swaps_extents() {
    let mut b = Body::dynamic_box(Vec2::new(0, 0), Vec2::new(2000, 1000), UNIT);
    b.rotation = Rotation { cos: 0, sin: 1_000_000 };
    let r = b.aabb();
    assert_eq!((r.min_x, r.min_y, r.max_x, r.max_y), (-1000, -2000, 1000, 2000));
}

#[test]
fn eighth_turn_grows_bounds() {
    let mut b = Body::dynamic_box(Vec2::new(0, 0), Vec2::new(1000, 1000), UNIT);
    b.rotation = Rotation { cos: 707_107, sin: 707_107 };
    let r = b.aabb();
    assert_eq!((r.min_x, r.max_x), (-1414, 1414));
    assert_eq!((r.min_y, r.max_y), (-1414, 1414));
    // The rotated bounds reach a box that the unrotated one would miss.
    let c = square(2400, 0, UNIT);
    assert!(bodies_overlap(&b, &c));
    let plain = square(0, 0, UNIT);
    assert!(!bodies_overlap(&plain, &c));
}

#[test]
fn contacts_for_each_overlapping_pair_in_order() {
    let bodies = vec![
        square(0, 0, UNIT),
        square(10 * UNIT, 0, UNIT),
        square(UNIT, 0, UNIT),
        square(0, UNIT + UNIT / 2, UNIT),
    ];
    let cs = detect_collisions(&bodies);
    let pairs: Vec<(usize, usize)> = cs.iter().map(|c| (c.a, c.b)).collect();
    assert_eq!(pairs, vec![(0, 2), (0, 3), (2, 3)]);
}

#[test]
fn contact_normal_along_least_overlap() {
    // b rests slightly inside the top of a: vertical overlap is smallest.
    let bodies = vec![square(0, 0, UNIT), square(UNIT / 2, 2 * UNIT - 10, UNIT)];
    let cs = detect_collisions(&bodies);
    assert_eq!(
        cs,
        vec![Contact { a: 0, b: 1, normal: Vec2::new(0, -1), depth: 10 }]
    );
    // b pushes into the right side of a: horizontal overlap is smallest.
    let bodies = vec![square(0, 0, UNIT), square(2 * UNIT - 30, UNIT / 2, UNIT)];
    let cs = detect_collisions(&bodies);
    assert_eq!(
        cs,
        vec![Contact { a: 0, b: 1, normal: Vec2::new(-1, 0), depth: 30 }]
    );
}

#[test]
fn bodies_without_collider_are_skipped() {
    let mut ghost = square(0, 0, UNIT);
    ghost.has_collider = false;
    let bodies = vec![ghost, square(0, 0, UNIT), square(UNIT, 0, UNIT)];
    let cs = detect_collisions(&bodies);
    let pairs: Vec<(usize, usize)> = cs.iter().map(|c| (c.a, c.b)).collect();
    assert_eq!(pairs, vec![(1, 2)]);
}

#[test]
fn persisting_overlap_reported_every_time() {
    let bodies = vec![square(0, 0, UNIT), square(UNIT, 0, UNIT)];
    assert_eq!(detect_collisions(&bodies).len(), 1);
    assert_eq!(detect_collisions(&bodies).len(), 1);
}

#[test]
fn no_bodies_no_contacts() {
    let bodies: Vec<Body> = Vec::new();
    assert!(detect_collisions(&bodies).is_empty());
}
