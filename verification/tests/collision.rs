use breakout::geom::resolve_collision;
use breakout::geom::Rect;
use breakout::geom::Vel;
use breakout::geom::VEL_UNIT;

#[test]
fn no_overlap_returns_false_and_mutates_nothing() {
    let mut a = Rect { x: 0, y: 0, w: 10, h: 10 };
    let mut v = Vel { x: 300, y: -400 };
    let b = Rect { x: 20, y: 20, w: 5, h: 5 };
    let hit = resolve_collision(&mut a, &mut v, &b);
    assert!(!hit);
    assert_eq!(a, Rect { x: 0, y: 0, w: 10, h: 10 });
    assert_eq!(v, Vel { x: 300, y: -400 });
}

#[test]
fn separated_on_one_axis_only_is_no_overlap() {
    let mut a = Rect { x: 0, y: 0, w: 10, h: 10 };
    let mut v = Vel { x: 100, y: 100 };
    let b = Rect { x: 5, y: 30, w: 10, h: 10 };
    assert!(!resolve_collision(&mut a, &mut v, &b));
    assert_eq!(a, Rect { x: 0, y: 0, w: 10, h: 10 });
    assert_eq!(v, Vel { x: 100, y: 100 });
}

#[test]
fn wide_overlap_resolves_vertically_and_touches_only_y() {
    // overlap is 80 wide and 10 tall; the static rect's center is
    // below, so the movable one is pushed up by exactly 10.
    let mut a = Rect { x: 0, y: 0, w: 100, h: 100 };
    let mut v = Vel { x: 300, y: 500 };
    let b = Rect { x: 10, y: 90, w: 80, h: 30 };
    let hit = resolve_collision(&mut a, &mut v, &b);
    assert!(hit);
    assert_eq!(a, Rect { x: 0, y: -10, w: 100, h: 100 });
    assert_eq!(v, Vel { x: 300, y: -500 });
}

#[test]
fn tall_overlap_resolves_horizontally_and_touches_only_x() {
    // overlap is 10 wide and 80 tall; the static rect's center is to
    // the right, so the movable one is pushed left by exactly 10.
    let mut a = Rect { x: 0, y: 0, w: 100, h: 100 };
    let mut v = Vel { x: 700, y: -200 };
    let b = Rect { x: 90, y: 10, w: 30, h: 80 };
    let hit = resolve_collision(&mut a, &mut v, &b);
    assert!(hit);
    assert_eq!(a, Rect { x: -10, y: 0, w: 100, h: 100 });
    assert_eq!(v, Vel { x: -700, y: -200 });
}

#[test]
fn push_out_distance_equals_overlap_extent_and_separates() {
    let mut a = Rect { x: 0, y: 60, w: 40, h: 40 };
    let mut v = Vel { x: 0, y: 900 };
    let b = Rect { x: 0, y: 90, w: 40, h: 40 };
    // overlap: 40 wide, 10 tall -> vertical resolution, push up 10.
    let hit = resolve_collision(&mut a, &mut v, &b);
    assert!(hit);
    assert_eq!(a.y, 50);
    // the two rectangles now only touch along y: a spans 50..90 and b
    // starts at 90.
    assert_eq!(a.y + a.h, b.y);
    assert_eq!(v, Vel { x: 0, y: -900 });
}

#[test]
fn touching_edges_count_as_a_hit() {
    let mut a = Rect { x: 0, y: 0, w: 10, h: 10 };
    let mut v = Vel { x: 0, y: 500 };
    let b = Rect { x: 0, y: 10, w: 10, h: 10 };
    // zero-height overlap: still reported, push-out distance is zero.
    let hit = resolve_collision(&mut a, &mut v, &b);
    assert!(hit);
    assert_eq!(a, Rect { x: 0, y: 0, w: 10, h: 10 });
    assert_eq!(v, Vel { x: 0, y: -500 });
}

#[test]
fn aligned_centers_zero_the_velocity_component() {
    // identical rectangles: centers align on both axes, the resolver
    // picks the horizontal axis and zeroes the x velocity.
    let mut a = Rect { x: 10, y: 10, w: 20, h: 20 };
    let mut v = Vel { x: 800, y: 600 };
    let b = Rect { x: 10, y: 10, w: 20, h: 20 };
    let hit = resolve_collision(&mut a, &mut v, &b);
    assert!(hit);
    assert_eq!(a, Rect { x: 10, y: 10, w: 20, h: 20 });
    assert_eq!(v, Vel { x: 0, y: 600 });
}

#[test]
fn ball_on_paddle_scenario_pushes_ball_up() {
    // ball at (100,100) of size 50 against a paddle at (90,140,150,40)
    // that is not moving: the ball ends above where it was, with a
    // velocity that no longer points down.
    let mut ball = Rect { x: 100, y: 100, w: 50, h: 50 };
    let mut v = Vel { x: 0, y: VEL_UNIT };
    let paddle = Rect { x: 90, y: 140, w: 150, h: 40 };
    let hit = resolve_collision(&mut ball, &mut v, &paddle);
    assert!(hit);
    assert!(ball.y < 100);
    assert!(v.y <= 0);
    assert_eq!(ball.y, 90);
    assert_eq!(v.y, -VEL_UNIT);
}
