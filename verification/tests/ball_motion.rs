use breakout::ball::Ball;
use breakout::ball::BALL_SIZE;
use breakout::geom::Rect;
use breakout::geom::Vel;
use breakout::geom::POS_LIMIT;
use breakout::geom::VEL_UNIT;

fn ball_at(x: i64, y: i64, vx: i64, vy: i64) -> Ball {
    Ball { rect: Rect { x, y, w: BALL_SIZE, h: BALL_SIZE }, vel: Vel { x: vx, y: vy } }
}

#[test]
fn new_places_the_ball_with_the_given_velocity() {
    let b = Ball::new(400, 300, -700, 714);
    assert_eq!(b.rect, Rect { x: 400, y: 300, w: 50, h: 50 });
    assert_eq!(b.vel, Vel { x: -700, y: 714 });
}

#[test]
fn update_scales_the_velocity_into_a_displacement() {
    // a full-unit downward velocity moves the ball by the whole step;
    // a half-unit leftward one by half of it, rounded toward zero.
    let mut b = ball_at(100, 100, -500, VEL_UNIT);
    b.update(21, 800);
    assert_eq!(b.rect.x, 100 - 10);
    assert_eq!(b.rect.y, 100 + 21);
    assert_eq!(b.vel, Vel { x: -500, y: VEL_UNIT });
}

#[test]
fn leaving_left_resets_vx_to_exactly_one_unit() {
    // the velocity becomes exactly one unit, not the flipped -500.
    let mut b = ball_at(5, 100, -500, 0);
    b.update(20, 800);
    assert_eq!(b.rect.x, -5);
    assert_eq!(b.vel.x, VEL_UNIT);
}

#[test]
fn leaving_right_resets_vx_to_exactly_minus_one_unit() {
    let mut b = ball_at(745, 100, 500, 0);
    b.update(20, 800);
    assert_eq!(b.rect.x, 755);
    assert!(b.rect.x > 800 - BALL_SIZE);
    assert_eq!(b.vel.x, -VEL_UNIT);
}

#[test]
fn leaving_top_resets_vy_to_exactly_one_unit() {
    let mut b = ball_at(100, 5, 0, -500);
    b.update(20, 800);
    assert_eq!(b.rect.y, -5);
    assert_eq!(b.vel.y, VEL_UNIT);
}

#[test]
fn no_bottom_edge_handling() {
    // a ball below the screen keeps falling: the velocity is untouched.
    let mut b = ball_at(100, 10_000, 0, VEL_UNIT);
    b.update(50, 800);
    assert_eq!(b.rect.y, 10_050);
    assert_eq!(b.vel.y, VEL_UNIT);
}

#[test]
fn inside_the_screen_the_velocity_is_kept() {
    let mut b = ball_at(300, 200, 600, -800);
    b.update(10, 800);
    assert_eq!(b.rect.x, 306);
    assert_eq!(b.rect.y, 192);
    assert_eq!(b.vel, Vel { x: 600, y: -800 });
}

#[test]
fn position_saturates_at_the_coordinate_range() {
    // far beyond any screen the position stops growing, as the float
    // original's does once the step vanishes next to the coordinate.
    let mut b = ball_at(100, POS_LIMIT - 10, 0, VEL_UNIT);
    b.update(25, 800);
    assert_eq!(b.rect.y, POS_LIMIT);
    b.update(25, 800);
    assert_eq!(b.rect.y, POS_LIMIT);
    assert_eq!(b.vel.y, VEL_UNIT);
}
