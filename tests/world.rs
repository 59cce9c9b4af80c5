use rune_spells::collision::COORD_LIMIT;
use rune_spells::knockback::{EnemyKnockbackComponent, Vector};
use rune_spells::{
    knockback_post_update, knockback_pre_update, resolve_collisions, resolve_collisions_symmetric,
    Collider, Point,
};

fn circle(x: i64, y: i64, r: i64) -> Collider {
    Collider::Circle { center: Point { x, y }, radius: r }
}
fn pt(x: i64, y: i64) -> Point {
    Point { x, y }
}

#[test]
fn circles_touch_within_their_radii() {
    assert!(circle(0, 0, 5).intersects(&circle(10, 0, 5)));
    assert!(!circle(0, 0, 5).intersects(&circle(11, 0, 5)));
    assert!(circle(0, 0, 5).intersects(&circle(6, 8, 5)));
    assert!(!circle(0, 0, 5).intersects(&circle(7, 8, 5)));
}

#[test]
fn circle_against_segment() {
    let seg = Collider::LineSegment(pt(0, 0), pt(100, 0));
    assert!(circle(50, 5, 5).intersects(&seg));
    assert!(seg.intersects(&circle(50, -5, 5)));
    assert!(!circle(50, 6, 5).intersects(&seg));
    // beyond the end, but the end is inside the circle
    assert!(circle(103, 0, 5).intersects(&seg));
    assert!(!circle(106, 0, 5).intersects(&seg));
    let point = Collider::LineSegment(pt(3, 4), pt(3, 4));
    assert!(circle(0, 0, 5).intersects(&point));
    assert!(!circle(0, 0, 4).intersects(&point));
}

#[test]
fn circle_against_ray() {
    let ray = Collider::LineRay { anchor: pt(0, 0), direction: pt(1, 0) };
    assert!(circle(1000, 3, 3).intersects(&ray));
    assert!(!circle(-10, 0, 3).intersects(&ray));
    assert!(circle(-2, 0, 3).intersects(&ray));
    assert!(!circle(500, 4, 3).intersects(&ray));
}

#[test]
fn circle_against_thick_segment() {
    let thick = Collider::ThickLineSegment { point1: pt(0, 0), point2: pt(0, 100), thickness: 10 };
    assert!(circle(14, 50, 5).intersects(&thick));
    assert!(!circle(16, 50, 5).intersects(&thick));
    // only the projection counts: past the end is outside
    assert!(!circle(0, -1, 5).intersects(&thick));
}

#[test]
fn directed_collisions_pair_sources_with_recipients() {
    let sources = vec![circle(0, 0, 5), Collider::LineSegment(pt(-100, 20), pt(100, 20))];
    let recipients = vec![circle(8, 0, 4), circle(0, 18, 3), circle(500, 500, 1)];
    let pairs = resolve_collisions(&sources, &recipients);
    assert_eq!(pairs, vec![(0, 0), (1, 1)]);
}

#[test]
fn symmetric_collisions_list_each_pair_once() {
    let cs = vec![circle(0, 0, 5), circle(8, 0, 4), circle(100, 0, 1), circle(4, 0, 1)];
    let pairs = resolve_collisions_symmetric(&cs);
    assert_eq!(pairs, vec![(0, 1), (0, 3), (1, 3)]);
    assert!(resolve_collisions_symmetric(&vec![circle(0, 0, 1)]).is_empty());
    assert!(resolve_collisions_symmetric(&vec![]).is_empty());
    let far = circle(COORD_LIMIT, COORD_LIMIT, 1);
    assert!(resolve_collisions_symmetric(&vec![far, circle(-COORD_LIMIT, -COORD_LIMIT, 1)]).is_empty());
}

#[test]
fn knockback_brackets_the_ai() {
    let mut kb = EnemyKnockbackComponent { impulse: Vector { x: 1000, y: -400 }, multiplier: 1000 };
    let mut speed = Vector { x: 5000, y: 0 };
    knockback_pre_update(&mut kb, &mut speed, 500);
    assert_eq!(kb.impulse, Vector { x: 500, y: -200 });
    assert_eq!(speed, Vector { x: 4500, y: 200 });
    knockback_post_update(&kb, &mut speed);
    assert_eq!(speed, Vector { x: 5000, y: 0 });
}

#[test]
fn knockback_impulse_between_brackets_adds_to_speed() {
    let mut kb = EnemyKnockbackComponent { impulse: Vector { x: 0, y: 0 }, multiplier: 500 };
    let mut speed = Vector { x: 100, y: 100 };
    knockback_pre_update(&mut kb, &mut speed, 900);
    kb.impulse = Vector { x: kb.impulse.x + 2000, y: kb.impulse.y };
    knockback_post_update(&kb, &mut speed);
    assert_eq!(speed, Vector { x: 1100, y: 100 });
    let mut still = EnemyKnockbackComponent { impulse: Vector { x: -7, y: 3 }, multiplier: 0 };
    let mut s2 = Vector { x: 1, y: 2 };
    knockback_pre_update(&mut still, &mut s2, 1000);
    knockback_post_update(&still, &mut s2);
    assert_eq!(s2, Vector { x: 1, y: 2 });
}
