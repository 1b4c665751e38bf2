use breakout::ball::Ball;
use breakout::block::Block;
use breakout::block::BlockColor;
use breakout::game::hit_block;
use breakout::game::GameState;
use breakout::geom::Rect;
use breakout::geom::Vel;
use breakout::geom::VEL_UNIT;

fn ball_over(b: &Block) -> Ball {
    Ball {
        rect: Rect { x: b.rect.x, y: b.rect.y, w: 50, h: 50 },
        vel: Vel { x: 0, y: VEL_UNIT },
    }
}

#[test]
fn new_game_builds_the_grid() {
    let g = GameState::new(800, 600, 0, VEL_UNIT);
    assert_eq!(g.score, 0);
    assert_eq!(g.player_lives, 3);
    assert_eq!(g.player.rect, Rect { x: 325, y: 500, w: 150, h: 40 });
    assert_eq!(g.blocks.len(), 36);
    for b in g.blocks.iter() {
        assert_eq!(b.lives, 2);
        assert_eq!(b.rect.w, 120);
        assert_eq!(b.rect.h, 40);
    }
    // grid origin: (800 - 6 * 125) / 2 = 25; blocks step by 125 and 45.
    assert_eq!(g.blocks[0].rect, Rect { x: 25, y: 50, w: 120, h: 40 });
    assert_eq!(g.blocks[5].rect, Rect { x: 25 + 5 * 125, y: 50, w: 120, h: 40 });
    assert_eq!(g.blocks[7].rect, Rect { x: 150, y: 95, w: 120, h: 40 });
    assert_eq!(g.blocks[35].rect, Rect { x: 25 + 5 * 125, y: 50 + 5 * 45, w: 120, h: 40 });
    assert_eq!(g.balls.len(), 1);
    assert_eq!(g.balls[0].rect, Rect { x: 400, y: 300, w: 50, h: 50 });
    assert_eq!(g.balls[0].vel, Vel { x: 0, y: VEL_UNIT });
}

#[test]
fn block_color_follows_lives() {
    let mut b = Block::new(0, 0);
    assert_eq!(b.color(), BlockColor::Red);
    b.lives = 1;
    assert_eq!(b.color(), BlockColor::Orange);
    b.lives = 0;
    assert_eq!(b.color(), BlockColor::Orange);
}

#[test]
fn hit_takes_one_life_and_scores_on_exhaustion() {
    let mut block = Block::new(100, 100);
    let mut score: i64 = 0;
    let mut ball = ball_over(&block);
    assert!(hit_block(&mut ball, &mut block, &mut score));
    assert_eq!(block.lives, 1);
    assert_eq!(score, 0);
    let mut ball = ball_over(&block);
    assert!(hit_block(&mut ball, &mut block, &mut score));
    assert_eq!(block.lives, 0);
    assert_eq!(score, 10);
}

#[test]
fn missed_block_changes_nothing() {
    let mut block = Block::new(500, 500);
    let mut score: i64 = 7;
    let mut ball = Ball {
        rect: Rect { x: 0, y: 0, w: 50, h: 50 },
        vel: Vel { x: 300, y: 400 },
    };
    assert!(!hit_block(&mut ball, &mut block, &mut score));
    assert_eq!(block.lives, 2);
    assert_eq!(score, 7);
    assert_eq!(ball.rect, Rect { x: 0, y: 0, w: 50, h: 50 });
    assert_eq!(ball.vel, Vel { x: 300, y: 400 });
}

#[test]
fn dead_blocks_are_removed_in_order() {
    let mut g = GameState::new(800, 600, 0, VEL_UNIT);
    g.blocks.truncate(4);
    g.blocks[1].lives = 0;
    g.blocks[3].lives = -1;
    let keep0 = g.blocks[0];
    let keep2 = g.blocks[2];
    g.remove_dead_blocks();
    assert_eq!(g.blocks.len(), 2);
    assert_eq!(g.blocks[0], keep0);
    assert_eq!(g.blocks[1], keep2);
    for b in g.blocks.iter() {
        assert!(b.lives >= 1);
    }
}

#[test]
fn grid_scenario_twelve_blocks_cleared() {
    // a six-by-six grid of two-life blocks: emptying the lives of
    // twelve distinct blocks takes two hits each and pays ten points
    // per cleared block.
    let mut g = GameState::new(800, 600, 0, VEL_UNIT);
    let mut score = g.score;
    for i in 0..12 {
        for _ in 0..2 {
            let mut block = g.blocks[i];
            let mut ball = ball_over(&block);
            assert!(hit_block(&mut ball, &mut block, &mut score));
            g.blocks[i] = block;
        }
    }
    g.score = score;
    assert_eq!(g.score, 120);
    g.remove_dead_blocks();
    assert_eq!(g.blocks.len(), 24);
    assert_eq!(g.score, 120);
}

#[test]
fn tick_moves_bounces_and_damages() {
    let mut g = GameState::new(800, 600, 0, VEL_UNIT);
    // one block straight under the ball, the paddle far away
    g.blocks.truncate(1);
    g.blocks[0].rect = Rect { x: 400, y: 360, w: 120, h: 40 };
    g.balls[0].rect = Rect { x: 410, y: 300, w: 50, h: 50 };
    assert!(g.wf_check());
    g.tick(false, false, 0, 20, 800);
    // the ball fell 20, overlapped the block by 10 along y, and was
    // pushed back out
    assert_eq!(g.balls[0].rect.y, 310);
    assert_eq!(g.balls[0].vel.y, -VEL_UNIT);
    assert_eq!(g.blocks.len(), 1);
    assert_eq!(g.blocks[0].lives, 1);
    assert_eq!(g.score, 0);
}

#[test]
fn tick_keeps_the_paddle_inside_the_screen() {
    let mut g = GameState::new(800, 600, 0, VEL_UNIT);
    for _ in 0..20 {
        assert!(g.wf_check());
        g.tick(false, true, 100, 0, 800);
        assert!(g.player.rect.x >= 0);
        assert!(g.player.rect.x <= 800 - g.player.rect.w);
    }
    assert_eq!(g.player.rect.x, 800 - 150);
}

#[test]
fn wf_check_accepts_fresh_games_and_rejects_bad_scores() {
    let mut g = GameState::new(800, 600, 0, VEL_UNIT);
    assert!(g.wf_check());
    g.score = -1;
    assert!(!g.wf_check());
}
