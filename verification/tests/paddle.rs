use breakout::geom::Rect;
use breakout::player::Player;
use breakout::player::PLAYER_HEIGHT;
use breakout::player::PLAYER_WIDTH;

fn paddle_at(x: i64) -> Player {
    Player { rect: Rect { x, y: 500, w: PLAYER_WIDTH, h: PLAYER_HEIGHT } }
}

#[test]
fn new_centers_the_paddle_near_the_bottom() {
    let p = Player::new(800, 600);
    assert_eq!(p.rect, Rect { x: 325, y: 500, w: 150, h: 40 });
}

#[test]
fn update_moves_left_and_right() {
    let mut p = paddle_at(300);
    p.update(false, true, 50, 800);
    assert_eq!(p.rect.x, 350);
    p.update(true, false, 70, 800);
    assert_eq!(p.rect.x, 280);
}

#[test]
fn update_with_both_or_neither_key_stays_put() {
    let mut p = paddle_at(300);
    p.update(true, true, 50, 800);
    assert_eq!(p.rect.x, 300);
    p.update(false, false, 50, 800);
    assert_eq!(p.rect.x, 300);
}

#[test]
fn update_clamps_to_the_left_edge() {
    let mut p = paddle_at(10);
    p.update(true, false, 50, 800);
    assert_eq!(p.rect.x, 0);
}

#[test]
fn update_clamps_to_the_right_edge() {
    let mut p = paddle_at(600);
    p.update(false, true, 100, 800);
    assert_eq!(p.rect.x, 800 - PLAYER_WIDTH);
}

#[test]
fn update_keeps_x_inside_the_screen() {
    // the position stays in [0, screen_w - width] whatever the keys
    // and the step.
    let mut p = paddle_at(0);
    for i in 0..30 {
        let left = i % 3 == 0;
        let right = i % 2 == 0;
        p.update(left, right, 200, 800);
        assert!(p.rect.x >= 0);
        assert!(p.rect.x <= 800 - PLAYER_WIDTH);
    }
}
