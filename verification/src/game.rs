//! The game state and the per-frame update: move the paddle and the
//! balls, resolve collisions (bouncing balls off the paddle and the
//! blocks, damaging blocks and awarding score), and drop destroyed
//! blocks. Drawing and input polling stay outside; the caller hands in
//! key states and per-frame movement steps and reads the state back.

use vstd::prelude::*;
use crate::ball::Ball;
use crate::ball::BALL_SIZE;
use crate::ball::ball_step_ok;
use crate::ball::ball_stepped;
use crate::block::Block;
use crate::block::BLOCK_HEIGHT;
use crate::block::BLOCK_START_LIVES;
use crate::block::BLOCK_WIDTH;
use crate::geom::DIM_LIMIT;
use crate::geom::VEL_UNIT;
use crate::geom::POS_LIMIT;
use crate::geom::Rect;
use crate::geom::SIZE_LIMIT;
use crate::geom::STEP_LIMIT;
use crate::geom::intersects;
use crate::geom::rect_bounded;
use crate::geom::resolve_collision;
use crate::geom::resolved_rect;
use crate::geom::resolved_vel;
use crate::geom::vel_bounded;
use crate::player::PLAYER_HEIGHT;
use crate::player::PLAYER_WIDTH;
use crate::player::Player;
use crate::player::player_step_ok;

verus! {

/// Columns of the starting block grid.
pub const GRID_COLS: i64 = 6;

/// Rows of the starting block grid.
pub const GRID_ROWS: i64 = 6;

/// Gap between neighbouring blocks in the grid.
pub const GRID_PADDING: i64 = 5;

/// Score awarded when a block's lives are exhausted.
pub const SCORE_PER_BLOCK: i64 = 10;

/// Lives the player starts with (displayed only: nothing in the game
/// ever decrements them).
pub const START_PLAYER_LIVES: i64 = 3;

/// Most blocks a well-formed state may hold.
pub const MAX_BLOCKS: usize = 100_000;

/// Most balls a well-formed state may hold.
pub const MAX_BALLS: usize = 1_000;

/// Largest score in a well-formed state.
pub const SCORE_LIMIT: i64 = 0x4_0000_0000_0000;

/// Score bound under which one ball's block pass cannot overflow.
pub const SCORE_PASS_LIMIT: i64 = 0x8_0000_0000_0000;

/// Score bound under which one more award cannot overflow.
pub const SCORE_CEIL: i64 = 0x10_0000_0000_0000;

/// Magnitude bound on a block's lives in a well-formed state.
pub const LIVES_LIMIT: i64 = 0x1_0000_0000;

/// Magnitude bound on a block's lives mid-frame.
pub const LIVES_CEIL: i64 = 0x2_0000_0000;

/// How far a ball can be from the origin once a frame's movement and
/// collision push-outs are all applied.
pub const BALL_ROAM_LIMIT: i64 = POS_LIMIT + STEP_LIMIT + (MAX_BLOCKS as i64 + 1)
    * SIZE_LIMIT;

/// The whole game: score, displayed lives, the paddle, the active
/// blocks and the balls.
pub struct GameState {
    pub score: i64,
    pub player_lives: i64,
    pub player: Player,
    pub blocks: Vec<Block>,
    pub balls: Vec<Ball>,
}

/// A rectangle whose coordinates and sizes are within the bounds a
/// well-formed state keeps every entity in.
pub open spec fn rect_ok(r: Rect) -> bool {
    &&& -POS_LIMIT <= r.x <= POS_LIMIT
    &&& -POS_LIMIT <= r.y <= POS_LIMIT
    &&& 0 <= r.w <= SIZE_LIMIT
    &&& 0 <= r.h <= SIZE_LIMIT
}

/// Bounds on one block in a well-formed state.
pub open spec fn block_ok(b: Block) -> bool {
    &&& rect_ok(b.rect)
    &&& -LIVES_LIMIT <= b.lives <= LIVES_LIMIT
}

/// Bounds on one block partway through a frame: earlier balls of the
/// same frame may already have taken a few lives below the well-formed
/// lower bound.
pub open spec fn block_pass_ok(b: Block) -> bool {
    &&& rect_ok(b.rect)
    &&& -LIVES_CEIL < b.lives <= LIVES_LIMIT
}

/// Bounds on one ball in a well-formed state: after a frame's bounces
/// a ball can sit a little outside the position range the movement
/// phase saturates at, so its own bound is the roaming range.
pub open spec fn ball_ok(b: Ball) -> bool {
    &&& -BALL_ROAM_LIMIT <= b.rect.x <= BALL_ROAM_LIMIT
    &&& -BALL_ROAM_LIMIT <= b.rect.y <= BALL_ROAM_LIMIT
    &&& 0 <= b.rect.w <= SIZE_LIMIT
    &&& 0 <= b.rect.h <= SIZE_LIMIT
    &&& vel_bounded(b.vel)
}

/// What the collision phase guarantees of one ball: bounded velocity,
/// unchanged size, and coordinates within the roaming range one
/// frame's bounces allow.
pub open spec fn ball_done_ok(pre: Ball, cur: Ball) -> bool {
    &&& vel_bounded(cur.vel)
    &&& cur.rect.w == pre.rect.w
    &&& cur.rect.h == pre.rect.h
    &&& -BALL_ROAM_LIMIT <= cur.rect.x <= BALL_ROAM_LIMIT
    &&& -BALL_ROAM_LIMIT <= cur.rect.y <= BALL_ROAM_LIMIT
}

/// Bounds on one ball right after the movement phase, whose
/// saturation puts it back inside the position range.
pub open spec fn ball_mid_ok(b: Ball) -> bool {
    &&& vel_bounded(b.vel)
    &&& -POS_LIMIT <= b.rect.x <= POS_LIMIT
    &&& -POS_LIMIT <= b.rect.y <= POS_LIMIT
    &&& 0 <= b.rect.w <= SIZE_LIMIT
    &&& 0 <= b.rect.h <= SIZE_LIMIT
}

/// How much a block is worth toward the score relative to a block
/// with one life left: each decrement of `lives` at or below zero has
/// awarded `SCORE_PER_BLOCK` once, so the weight grows by one per such
/// decrement.
pub open spec fn block_weight(b: Block) -> int {
    if b.lives <= 0 {
        1 - b.lives
    } else {
        0
    }
}

/// Total score weight of a block list; the collision phase raises the
/// score by exactly `SCORE_PER_BLOCK` times the growth of this sum.
pub open spec fn score_weight(s: Seq<Block>) -> int
    decreases s.len(),
{
    if s.len() == 0 {
        0
    } else {
        score_weight(s.drop_last()) + block_weight(s.last())
    }
}

/// The blocks of `s` that still have a life, in order.
pub open spec fn alive_filter(s: Seq<Block>) -> Seq<Block>
    decreases s.len(),
{
    if s.len() == 0 {
        Seq::empty()
    } else {
        let rest = alive_filter(s.drop_last());
        if s.last().lives > 0 {
            rest.push(s.last())
        } else {
            rest
        }
    }
}

/// Replacing one block changes the total weight by the difference of
/// the block weights.
proof fn lemma_score_weight_update(s: Seq<Block>, j: int, b: Block)
    requires
        0 <= j < s.len(),
    ensures
        score_weight(s.update(j, b)) == score_weight(s) - block_weight(s[j]) + block_weight(b),
    decreases s.len(),
{
    let t = s.update(j, b);
    if j == s.len() - 1 {
        assert(t.drop_last() =~= s.drop_last());
        assert(t.last() == b);
    } else {
        assert(t.drop_last() =~= s.drop_last().update(j, b));
        assert(t.last() == s.last());
        lemma_score_weight_update(s.drop_last(), j, b);
    }
}

/// The ball after bouncing off an obstacle it overlaps (unchanged
/// when it does not).
pub open spec fn bounced(ball: Ball, obstacle: Rect) -> Ball {
    if intersects(ball.rect, obstacle) {
        Ball {
            rect: resolved_rect(ball.rect, obstacle),
            vel: resolved_vel(ball.rect, ball.vel, obstacle),
        }
    } else {
        ball
    }
}

/// Ball, block and score after the ball is held against one block: on
/// an overlap the ball bounces off, the block loses one life, and a
/// life lost at or below zero pays `SCORE_PER_BLOCK`.
pub open spec fn hit_outcome(ball: Ball, block: Block, score: int) -> (Ball, Block, int) {
    if intersects(ball.rect, block.rect) {
        (
            bounced(ball, block.rect),
            Block { lives: (block.lives - 1) as i64, ..block },
            if block.lives - 1 <= 0 {
                score + SCORE_PER_BLOCK
            } else {
                score
            },
        )
    } else {
        (ball, block, score)
    }
}

/// Ball, blocks and score after one ball is held against every block
/// in order, the ball carrying each bounce into the next overlap test.
pub open spec fn pass_outcome(ball: Ball, blocks: Seq<Block>, score: int) -> (Ball, Seq<Block>, int)
    decreases blocks.len(),
{
    if blocks.len() == 0 {
        (ball, blocks, score)
    } else {
        let head = hit_outcome(ball, blocks[0], score);
        let rest = pass_outcome(head.0, blocks.skip(1), head.2);
        (rest.0, seq![head.1] + rest.1, rest.2)
    }
}

/// Balls, blocks and score after the whole collision phase: each ball
/// in order bounces off the paddle and then runs over the blocks,
/// handing the damaged blocks and the score on to the next ball.
pub open spec fn collisions_outcome(
    balls: Seq<Ball>,
    paddle: Rect,
    blocks: Seq<Block>,
    score: int,
) -> (Seq<Ball>, Seq<Block>, int)
    decreases balls.len(),
{
    if balls.len() == 0 {
        (balls, blocks, score)
    } else {
        let head = pass_outcome(bounced(balls[0], paddle), blocks, score);
        let rest = collisions_outcome(balls.skip(1), paddle, head.1, head.2);
        (seq![head.0] + rest.0, rest.1, rest.2)
    }
}

/// The balls of `balls`, each advanced by one movement step.
pub open spec fn balls_stepped(balls: Seq<Ball>, step: int, screen_w: int) -> Seq<Ball> {
    Seq::new(balls.len(), |k: int| ball_stepped(balls[k], step, screen_w))
}

/// The total weight is never negative, and when every block's lives
/// sit at most `slack` below one, it is bounded by `slack` per block
/// that the cleanup pass will drop.
proof fn lemma_weight_bounded_by_dead(s: Seq<Block>, slack: int)
    requires
        slack >= 0,
        forall|k: int| 0 <= k < s.len() ==> (#[trigger] s[k]).lives >= 1 - slack,
    ensures
        alive_filter(s).len() <= s.len(),
        0 <= score_weight(s) <= slack * (s.len() - alive_filter(s).len()),
    decreases s.len(),
{
    if s.len() > 0 {
        lemma_weight_bounded_by_dead(s.drop_last(), slack);
        let d = s.drop_last().len() - alive_filter(s.drop_last()).len();
        if s.last().lives <= 0 {
            assert(slack * (d + 1) == slack * d + slack) by (nonlinear_arith);
        }
    }
}

/// One ball against one block: if they overlap, the ball bounces off
/// (position pushed out, velocity turned away), the block loses one
/// life, and when that leaves the block at zero lives or below the
/// score rises by `SCORE_PER_BLOCK`. Without an overlap nothing
/// changes.
pub fn hit_block(ball: &mut Ball, block: &mut Block, score: &mut i64) -> (hit: bool)
    requires
        rect_bounded(old(ball).rect),
        vel_bounded(old(ball).vel),
        rect_bounded(old(block).rect),
        -LIVES_CEIL <= old(block).lives <= LIVES_CEIL,
        0 <= *old(score) <= SCORE_CEIL,
    ensures
        hit == intersects(old(ball).rect, old(block).rect),
        !hit ==> *final(ball) == *old(ball) && *final(block) == *old(block) && *final(score)
            == *old(score),
        hit ==> final(ball).rect == resolved_rect(old(ball).rect, old(block).rect),
        hit ==> final(ball).vel == resolved_vel(old(ball).rect, old(ball).vel, old(block).rect),
        hit ==> final(block).lives == old(block).lives - 1,
        final(block).rect == old(block).rect,
        *final(score) == *old(score) + SCORE_PER_BLOCK * (block_weight(*final(block))
            - block_weight(*old(block))),
        hit && old(block).lives == 1 ==> *final(score) == *old(score) + SCORE_PER_BLOCK,
        hit && old(block).lives >= 2 ==> *final(score) == *old(score),
        *old(score) <= *final(score) <= *old(score) + SCORE_PER_BLOCK,
        vel_bounded(final(ball).vel),
        final(ball).rect.w == old(ball).rect.w && final(ball).rect.h == old(ball).rect.h,
        old(ball).rect.x - old(ball).rect.w <= final(ball).rect.x <= old(ball).rect.x + old(ball).rect.w,
        old(ball).rect.y - old(ball).rect.h <= final(ball).rect.y <= old(ball).rect.y + old(ball).rect.h,
{
    let mut r = ball.rect;
    let mut v = ball.vel;
    let hit = resolve_collision(&mut r, &mut v, &block.rect);
    ball.rect = r;
    ball.vel = v;
    if hit {
        block.lives = block.lives - 1;
        if block.lives <= 0 {
            *score = *score + SCORE_PER_BLOCK;
        }
    }
    hit
}

/// One ball against every block in order. Each block keeps its place
/// and bounds and loses at most one life; the score rises by exactly
/// `SCORE_PER_BLOCK` times the growth of the blocks' total weight,
/// which is one per life lost at or below zero.
pub fn ball_blocks_pass(ball: &mut Ball, blocks: &mut Vec<Block>, score: &mut i64)
    requires
        -POS_LIMIT - STEP_LIMIT - SIZE_LIMIT <= old(ball).rect.x <= POS_LIMIT + STEP_LIMIT
            + SIZE_LIMIT,
        -POS_LIMIT - STEP_LIMIT - SIZE_LIMIT <= old(ball).rect.y <= POS_LIMIT + STEP_LIMIT
            + SIZE_LIMIT,
        0 <= old(ball).rect.w <= SIZE_LIMIT,
        0 <= old(ball).rect.h <= SIZE_LIMIT,
        vel_bounded(old(ball).vel),
        old(blocks)@.len() <= MAX_BLOCKS,
        forall|k: int| 0 <= k < old(blocks)@.len() ==> block_pass_ok(#[trigger] old(blocks)@[k]),
        0 <= *old(score) <= SCORE_PASS_LIMIT,
    ensures
        *final(ball) == pass_outcome(*old(ball), old(blocks)@, *old(score) as int).0,
        final(blocks)@ == pass_outcome(*old(ball), old(blocks)@, *old(score) as int).1,
        *final(score) == pass_outcome(*old(ball), old(blocks)@, *old(score) as int).2,
        final(blocks)@.len() == old(blocks)@.len(),
        forall|k: int|
            0 <= k < old(blocks)@.len() ==> #[trigger] final(blocks)@[k].rect == old(blocks)@[k].rect,
        forall|k: int|
            0 <= k < old(blocks)@.len() ==> old(blocks)@[k].lives - 1 <= #[trigger] final(blocks)@[k].lives <= old(blocks)@[k].lives,
        *final(score) == *old(score) + SCORE_PER_BLOCK * (score_weight(final(blocks)@)
            - score_weight(old(blocks)@)),
        *old(score) <= *final(score) <= *old(score) + SCORE_PER_BLOCK * old(blocks)@.len(),
        vel_bounded(final(ball).vel),
        final(ball).rect.w == old(ball).rect.w && final(ball).rect.h == old(ball).rect.h,
        -BALL_ROAM_LIMIT <= final(ball).rect.x <= BALL_ROAM_LIMIT,
        -BALL_ROAM_LIMIT <= final(ball).rect.y <= BALL_ROAM_LIMIT,
{
    let ghost blocks0 = blocks@;
    let ghost score0 = *score;
    proof {
        assert(blocks0.skip(0) =~= blocks0);
        assert(blocks@.take(0) + pass_outcome(*ball, blocks0, *score as int).1 =~= pass_outcome(
            *ball,
            blocks0,
            *score as int,
        ).1);
    }
    let mut j: usize = 0;
    while j < blocks.len()
        invariant
            j <= blocks@.len(),
            blocks@.len() == blocks0.len(),
            blocks0.len() <= MAX_BLOCKS,
            forall|k: int| 0 <= k < blocks0.len() ==> block_pass_ok(#[trigger] blocks0[k]),
            forall|k: int|
                0 <= k < blocks0.len() ==> #[trigger] blocks@[k].rect == blocks0[k].rect,
            forall|k: int|
                0 <= k < j ==> blocks0[k].lives - 1 <= #[trigger] blocks@[k].lives
                    <= blocks0[k].lives,
            forall|k: int| j <= k < blocks0.len() ==> #[trigger] blocks@[k] == blocks0[k],
            *score == score0 + SCORE_PER_BLOCK * (score_weight(blocks@) - score_weight(blocks0)),
            score0 <= *score <= score0 + SCORE_PER_BLOCK * j,
            0 <= score0 <= SCORE_PASS_LIMIT,
            vel_bounded(ball.vel),
            ball.rect.w == old(ball).rect.w && ball.rect.h == old(ball).rect.h,
            0 <= ball.rect.w <= SIZE_LIMIT,
            0 <= ball.rect.h <= SIZE_LIMIT,
            -POS_LIMIT - STEP_LIMIT - SIZE_LIMIT - (j as int) * SIZE_LIMIT <= ball.rect.x
                <= POS_LIMIT + STEP_LIMIT + SIZE_LIMIT + (j as int) * SIZE_LIMIT,
            -POS_LIMIT - STEP_LIMIT - SIZE_LIMIT - (j as int) * SIZE_LIMIT <= ball.rect.y
                <= POS_LIMIT + STEP_LIMIT + SIZE_LIMIT + (j as int) * SIZE_LIMIT,
            ({
                let total = pass_outcome(*old(ball), blocks0, score0 as int);
                let rem = pass_outcome(*ball, blocks0.skip(j as int), *score as int);
                total.0 == rem.0 && total.1 == blocks@.take(j as int) + rem.1 && total.2 == rem.2
            }),
        decreases blocks@.len() - j,
    {
        let ghost pre = blocks@;
        let ghost ball_pre = *ball;
        let ghost score_pre = *score as int;
        let mut blk = blocks[j];
        hit_block(ball, &mut blk, score);
        blocks[j] = blk;
        proof {
            assert(blocks@ =~= pre.update(j as int, blk));
            lemma_score_weight_update(pre, j as int, blk);
            let s_rem = blocks0.skip(j as int);
            assert(s_rem[0] == blocks0[j as int]);
            assert(s_rem.skip(1) =~= blocks0.skip(j + 1));
            assert(hit_outcome(ball_pre, blocks0[j as int], score_pre) == (*ball, blk, *score as int));
            let rem_new = pass_outcome(*ball, blocks0.skip(j + 1), *score as int);
            assert(pass_outcome(ball_pre, s_rem, score_pre) == (
                rem_new.0,
                seq![blk] + rem_new.1,
                rem_new.2,
            ));
            assert(blocks@.take(j as int) =~= pre.take(j as int));
            assert(blocks@.take(j + 1) =~= blocks@.take(j as int) + seq![blk]);
            assert(blocks@.take(j as int) + (seq![blk] + rem_new.1) =~= (blocks@.take(j as int)
                + seq![blk]) + rem_new.1);
        }
        j = j + 1;
    }
    proof {
        assert(blocks0.skip(blocks0.len() as int) =~= Seq::<Block>::empty());
        assert(blocks@.take(blocks0.len() as int) =~= blocks@);
    }
    proof {
        assert(-BALL_ROAM_LIMIT <= ball.rect.x <= BALL_ROAM_LIMIT);
        assert(-BALL_ROAM_LIMIT <= ball.rect.y <= BALL_ROAM_LIMIT);
    }
}

/// x coordinate of the left edge of the block grid: six columns of
/// blocks with their padding, centered on the screen (the halving
/// rounds toward zero).
pub open spec fn grid_origin_x(screen_w: int) -> int {
    let grid_w = GRID_COLS * (BLOCK_WIDTH + GRID_PADDING);
    if screen_w >= grid_w {
        (screen_w - grid_w) / 2
    } else {
        -((grid_w - screen_w) / 2)
    }
}

/// x coordinate of the block at index `i` of the starting grid.
pub open spec fn grid_pos_x(screen_w: int, i: int) -> int {
    grid_origin_x(screen_w) + (i % (GRID_COLS as int)) * ((BLOCK_WIDTH + GRID_PADDING) as int)
}

/// y coordinate of the block at index `i` of the starting grid.
pub open spec fn grid_pos_y(i: int) -> int {
    50 + (i / (GRID_COLS as int)) * ((BLOCK_HEIGHT + GRID_PADDING) as int)
}

/// Executable check that a rectangle is within the well-formed bounds.
fn rect_ok_check(r: &Rect) -> (ok: bool)
    ensures
        ok == rect_ok(*r),
{
    -POS_LIMIT <= r.x && r.x <= POS_LIMIT && -POS_LIMIT <= r.y && r.y <= POS_LIMIT && 0 <= r.w
        && r.w <= SIZE_LIMIT && 0 <= r.h && r.h <= SIZE_LIMIT
}

impl GameState {
    /// The invariant every frame starts from and ends in: entities
    /// within bounds, every active block with at least one life left
    /// (destroyed blocks are removed before the frame ends), and the
    /// score small enough — counting what the remaining blocks could
    /// still pay out — that one frame's bookkeeping stays inside
    /// `i64`.
    pub open spec fn wf(self) -> bool {
        &&& rect_ok(self.player.rect)
        &&& self.blocks@.len() <= MAX_BLOCKS
        &&& (forall|k: int|
            0 <= k < self.blocks@.len() ==> block_ok(#[trigger] self.blocks@[k]))
        &&& (forall|k: int| 0 <= k < self.blocks@.len() ==> (#[trigger] self.blocks@[k]).lives >= 1)
        &&& self.balls@.len() <= MAX_BALLS
        &&& (forall|k: int| 0 <= k < self.balls@.len() ==> ball_ok(#[trigger] self.balls@[k]))
        &&& 0 <= self.score
        &&& self.score + SCORE_PER_BLOCK * self.balls@.len() * self.blocks@.len() <= SCORE_LIMIT
    }

    /// Moves the paddle by the key states and `player_step`, and every
    /// ball by `ball_step` with the screen-edge bounces of
    /// `Ball::update`. Blocks, score and displayed lives are untouched.
    pub fn update_positions(
        &mut self,
        left_down: bool,
        right_down: bool,
        player_step: i64,
        ball_step: i64,
        screen_w: i64,
    )
        requires
            0 <= player_step <= STEP_LIMIT,
            0 <= ball_step <= STEP_LIMIT,
            0 <= screen_w <= DIM_LIMIT,
            rect_ok(old(self).player.rect),
            forall|k: int| 0 <= k < old(self).balls@.len() ==> ball_ok(#[trigger] old(self).balls@[k]),
        ensures
            player_step_ok(
                old(self).player,
                final(self).player,
                left_down,
                right_down,
                player_step as int,
                screen_w as int,
            ),
            old(self).player.rect.w <= screen_w ==> 0 <= final(self).player.rect.x <= screen_w
                - old(self).player.rect.w,
            rect_ok(final(self).player.rect),
            final(self).balls@.len() == old(self).balls@.len(),
            forall|k: int|
                0 <= k < old(self).balls@.len() ==> ball_step_ok(
                    old(self).balls@[k],
                    #[trigger] final(self).balls@[k],
                    ball_step as int,
                    screen_w as int,
                ),
            forall|k: int|
                0 <= k < old(self).balls@.len() ==> ball_mid_ok(#[trigger] final(self).balls@[k]),
            final(self).blocks@ == old(self).blocks@,
            final(self).score == old(self).score,
            final(self).player_lives == old(self).player_lives,
    {
        let mut i: usize = 0;
        while i < self.balls.len()
            invariant
                i <= self.balls@.len(),
                self.balls@.len() == old(self).balls@.len(),
                0 <= ball_step <= STEP_LIMIT,
                0 <= screen_w <= DIM_LIMIT,
                forall|k: int|
                    0 <= k < old(self).balls@.len() ==> ball_ok(#[trigger] old(self).balls@[k]),
                forall|k: int| i <= k < self.balls@.len() ==> #[trigger] self.balls@[k] == old(self).balls@[k],
                forall|k: int|
                    0 <= k < i ==> ball_step_ok(
                        old(self).balls@[k],
                        #[trigger] self.balls@[k],
                        ball_step as int,
                        screen_w as int,
                    ),
                forall|k: int| 0 <= k < i ==> ball_mid_ok(#[trigger] self.balls@[k]),
                self.player == old(self).player,
                self.blocks@ == old(self).blocks@,
                self.score == old(self).score,
                self.player_lives == old(self).player_lives,
            decreases self.balls@.len() - i,
        {
            let mut ball = self.balls[i];
            ball.update(ball_step, screen_w);
            self.balls[i] = ball;
            i = i + 1;
        }
        self.player.update(left_down, right_down, player_step, screen_w);
    }

    /// Bounces every ball off the paddle and then off each block in
    /// order, taking one life from every block a ball overlaps and
    /// awarding `SCORE_PER_BLOCK` for each life taken at or below
    /// zero. Block places and bounds, the paddle, the displayed lives
    /// and the number of balls are unchanged.
    pub fn resolve_collisions(&mut self)
        requires
            rect_ok(old(self).player.rect),
            old(self).blocks@.len() <= MAX_BLOCKS,
            forall|k: int| 0 <= k < old(self).blocks@.len() ==> block_ok(#[trigger] old(self).blocks@[k]),
            old(self).balls@.len() <= MAX_BALLS,
            forall|k: int|
                0 <= k < old(self).balls@.len() ==> ball_mid_ok(#[trigger] old(self).balls@[k]),
            0 <= old(self).score <= SCORE_LIMIT,
        ensures
            final(self).balls@ == collisions_outcome(
                old(self).balls@,
                old(self).player.rect,
                old(self).blocks@,
                old(self).score as int,
            ).0,
            final(self).blocks@ == collisions_outcome(
                old(self).balls@,
                old(self).player.rect,
                old(self).blocks@,
                old(self).score as int,
            ).1,
            final(self).score == collisions_outcome(
                old(self).balls@,
                old(self).player.rect,
                old(self).blocks@,
                old(self).score as int,
            ).2,
            final(self).player == old(self).player,
            final(self).player_lives == old(self).player_lives,
            final(self).balls@.len() == old(self).balls@.len(),
            final(self).blocks@.len() == old(self).blocks@.len(),
            forall|k: int|
                0 <= k < old(self).blocks@.len() ==> #[trigger] final(self).blocks@[k].rect == old(self).blocks@[k].rect,
            forall|k: int|
                0 <= k < old(self).blocks@.len() ==> old(self).blocks@[k].lives - old(self).balls@.len() <= #[trigger] final(self).blocks@[k].lives <= old(self).blocks@[k].lives,
            final(self).score == old(self).score + SCORE_PER_BLOCK * (score_weight(
                final(self).blocks@,
            ) - score_weight(old(self).blocks@)),
            old(self).score <= final(self).score <= old(self).score + old(self).balls@.len()
                * 1_000_000,
            forall|k: int|
                0 <= k < old(self).balls@.len() ==> ball_done_ok(
                    old(self).balls@[k],
                    #[trigger] final(self).balls@[k],
                ),
    {
        let ghost blocks0 = self.blocks@;
        let ghost score0 = self.score;
        let ghost balls0 = self.balls@;
        proof {
            assert(balls0.skip(0) =~= balls0);
            assert(self.balls@.take(0) + collisions_outcome(
                balls0,
                self.player.rect,
                blocks0,
                score0 as int,
            ).0 =~= collisions_outcome(balls0, self.player.rect, blocks0, score0 as int).0);
        }
        let mut i: usize = 0;
        while i < self.balls.len()
            invariant
                i <= self.balls@.len(),
                balls0 == old(self).balls@,
                ({
                    let total = collisions_outcome(
                        balls0,
                        old(self).player.rect,
                        blocks0,
                        score0 as int,
                    );
                    let rem = collisions_outcome(
                        balls0.skip(i as int),
                        old(self).player.rect,
                        self.blocks@,
                        self.score as int,
                    );
                    total.0 == self.balls@.take(i as int) + rem.0 && total.1 == rem.1 && total.2
                        == rem.2
                }),
                self.balls@.len() == old(self).balls@.len(),
                self.balls@.len() <= MAX_BALLS,
                self.player == old(self).player,
                rect_ok(self.player.rect),
                self.player_lives == old(self).player_lives,
                blocks0 == old(self).blocks@,
                score0 == old(self).score,
                0 <= score0 <= SCORE_LIMIT,
                blocks0.len() <= MAX_BLOCKS,
                forall|k: int| 0 <= k < blocks0.len() ==> block_ok(#[trigger] blocks0[k]),
                self.blocks@.len() == blocks0.len(),
                forall|k: int|
                    0 <= k < blocks0.len() ==> #[trigger] self.blocks@[k].rect == blocks0[k].rect,
                forall|k: int|
                    0 <= k < blocks0.len() ==> blocks0[k].lives - i <= #[trigger] self.blocks@[k].lives <= blocks0[k].lives,
                self.score == score0 + SCORE_PER_BLOCK * (score_weight(self.blocks@)
                    - score_weight(blocks0)),
                score0 <= self.score <= score0 + i * 1_000_000,
                forall|k: int|
                    0 <= k < i ==> ball_done_ok(old(self).balls@[k], #[trigger] self.balls@[k]),
                forall|k: int|
                    i <= k < old(self).balls@.len() ==> #[trigger] self.balls@[k] == old(self).balls@[k],
                forall|k: int|
                    0 <= k < old(self).balls@.len() ==> ball_mid_ok(#[trigger] old(self).balls@[k]),
            decreases self.balls@.len() - i,
        {
            let mut ball = self.balls[i];
            let ghost ball_pre = ball;
            let mut r = ball.rect;
            let mut v = ball.vel;
            resolve_collision(&mut r, &mut v, &self.player.rect);
            ball.rect = r;
            ball.vel = v;
            let ghost b1 = ball;
            let ghost blocks_pre = self.blocks@;
            let ghost score_pre = self.score as int;
            let mut score = self.score;
            ball_blocks_pass(&mut ball, &mut self.blocks, &mut score);
            self.score = score;
            let ghost balls_pre = self.balls@;
            self.balls[i] = ball;
            proof {
                assert(self.balls@ =~= balls_pre.update(i as int, ball));
                assert(ball_done_ok(old(self).balls@[i as int], ball));
                assert forall|k: int| 0 <= k < i + 1 implies ball_done_ok(
                    old(self).balls@[k],
                    #[trigger] self.balls@[k],
                ) by {
                    if k != i as int {
                        assert(self.balls@[k] == balls_pre[k]);
                    }
                }
                assert(b1 == bounced(ball_pre, old(self).player.rect));
                let s_rem = balls0.skip(i as int);
                assert(s_rem[0] == balls0[i as int]);
                assert(s_rem.skip(1) =~= balls0.skip(i + 1));
                assert(ball_pre == balls0[i as int]);
                let head = pass_outcome(b1, blocks_pre, score_pre);
                assert(ball == head.0 && self.blocks@ == head.1 && self.score as int == head.2);
                let rem_new = collisions_outcome(
                    balls0.skip(i + 1),
                    old(self).player.rect,
                    self.blocks@,
                    self.score as int,
                );
                assert(collisions_outcome(s_rem, old(self).player.rect, blocks_pre, score_pre)
                    == (seq![ball] + rem_new.0, rem_new.1, rem_new.2));
                assert(self.balls@.take(i as int) =~= balls_pre.take(i as int));
                assert(self.balls@.take(i + 1) =~= self.balls@.take(i as int) + seq![ball]);
                assert(self.balls@.take(i as int) + (seq![ball] + rem_new.0) =~= (self.balls@.take(
                    i as int,
                ) + seq![ball]) + rem_new.0);
            }
            i = i + 1;
        }
        proof {
            assert(balls0.skip(balls0.len() as int) =~= Seq::<Ball>::empty());
            assert(self.balls@.take(balls0.len() as int) =~= self.balls@);
        }
    }

    /// Drops every block whose lives are exhausted, keeping the rest
    /// in order; nothing else changes. Afterwards every active block
    /// has at least one life.
    pub fn remove_dead_blocks(&mut self)
        ensures
            final(self).blocks@ == alive_filter(old(self).blocks@),
            forall|k: int| 0 <= k < final(self).blocks@.len() ==> #[trigger] final(self).blocks@[k].lives >= 1,
            final(self).blocks@.len() <= old(self).blocks@.len(),
            forall|k: int|
                0 <= k < final(self).blocks@.len() ==> exists|j: int|
                    0 <= j < old(self).blocks@.len() && #[trigger] final(self).blocks@[k] == old(self).blocks@[j],
            final(self).score == old(self).score,
            final(self).player == old(self).player,
            final(self).player_lives == old(self).player_lives,
            final(self).balls@ == old(self).balls@,
    {
        let ghost blocks0 = self.blocks@;
        let mut kept: Vec<Block> = Vec::new();
        let mut i: usize = 0;
        while i < self.blocks.len()
            invariant
                i <= blocks0.len(),
                self.blocks@ == blocks0,
                kept@ == alive_filter(blocks0.take(i as int)),
                kept@.len() <= i,
                forall|k: int| 0 <= k < kept@.len() ==> #[trigger] kept@[k].lives >= 1,
                forall|k: int|
                    0 <= k < kept@.len() ==> exists|j: int|
                        0 <= j < blocks0.len() && #[trigger] kept@[k] == blocks0[j],
            decreases blocks0.len() - i,
        {
            let b = self.blocks[i];
            proof {
                assert(blocks0.take(i + 1).drop_last() =~= blocks0.take(i as int));
                assert(blocks0.take(i + 1).last() == blocks0[i as int]);
            }
            if b.lives > 0 {
                kept.push(b);
            }
            i = i + 1;
        }
        proof {
            assert(blocks0.take(blocks0.len() as int) =~= blocks0);
        }
        self.blocks = kept;
    }

    /// One frame: move the paddle and the balls, resolve every
    /// collision, then drop the destroyed blocks. The paddle moves
    /// exactly as `Player::update` says; blocks only lose lives, the
    /// survivors all have at least one left; the score never falls and
    /// grows by a multiple of `SCORE_PER_BLOCK`.
    pub fn tick(
        &mut self,
        left_down: bool,
        right_down: bool,
        player_step: i64,
        ball_step: i64,
        screen_w: i64,
    )
        requires
            old(self).wf(),
            0 <= player_step <= STEP_LIMIT,
            0 <= ball_step <= STEP_LIMIT,
            0 <= screen_w <= DIM_LIMIT,
        ensures
            player_step_ok(
                old(self).player,
                final(self).player,
                left_down,
                right_down,
                player_step as int,
                screen_w as int,
            ),
            old(self).player.rect.w <= screen_w ==> 0 <= final(self).player.rect.x <= screen_w
                - old(self).player.rect.w,
            final(self).player_lives == old(self).player_lives,
            final(self).balls@.len() == old(self).balls@.len(),
            final(self).blocks@.len() <= old(self).blocks@.len(),
            forall|k: int| 0 <= k < final(self).blocks@.len() ==> #[trigger] final(self).blocks@[k].lives >= 1,
            old(self).score <= final(self).score,
            (final(self).score - old(self).score) % (SCORE_PER_BLOCK as int) == 0,
            ({
                let moved = balls_stepped(old(self).balls@, ball_step as int, screen_w as int);
                let outcome = collisions_outcome(
                    moved,
                    final(self).player.rect,
                    old(self).blocks@,
                    old(self).score as int,
                );
                &&& final(self).balls@ == outcome.0
                &&& final(self).blocks@ == alive_filter(outcome.1)
                &&& final(self).score == outcome.2
            }),
            final(self).wf(),
    {
        self.update_positions(left_down, right_down, player_step, ball_step, screen_w);
        proof {
            assert forall|k: int| 0 <= k < self.balls@.len() implies #[trigger] self.balls@[k]
                == balls_stepped(old(self).balls@, ball_step as int, screen_w as int)[k] by {
                assert(ball_step_ok(
                    old(self).balls@[k],
                    self.balls@[k],
                    ball_step as int,
                    screen_w as int,
                ));
            }
            assert(self.balls@ =~= balls_stepped(old(self).balls@, ball_step as int, screen_w as int));
            let b = old(self).balls@.len() as int;
            let n = old(self).blocks@.len() as int;
            assert(0 <= 10 * b * n) by (nonlinear_arith)
                requires
                    0 <= b,
                    0 <= n,
            ;
            assert(SCORE_PER_BLOCK == 10);
        }
        let ghost moved = self.balls@;
        self.resolve_collisions();
        let ghost mid = *self;
        self.remove_dead_blocks();
        proof {
            vstd::arithmetic::div_mod::lemma_mod_multiples_basic(
                score_weight(mid.blocks@) - score_weight(old(self).blocks@),
                SCORE_PER_BLOCK as int,
            );
            let b = old(self).balls@.len() as int;
            let n = old(self).blocks@.len() as int;
            let n2 = self.blocks@.len() as int;
            assert forall|k: int| 0 <= k < self.blocks@.len() implies block_ok(
                #[trigger] self.blocks@[k],
            ) by {
                let j = choose|j: int|
                    0 <= j < mid.blocks@.len() && self.blocks@[k] == mid.blocks@[j];
                assert(mid.blocks@[j].rect == old(self).blocks@[j].rect);
                assert(block_ok(old(self).blocks@[j]));
                assert(mid.blocks@[j].lives <= old(self).blocks@[j].lives);
            }
            assert forall|k: int| 0 <= k < self.balls@.len() implies ball_ok(
                #[trigger] self.balls@[k],
            ) by {
                assert(ball_done_ok(moved[k], self.balls@[k]));
                assert(ball_mid_ok(moved[k]));
            }
            lemma_weight_bounded_by_dead(old(self).blocks@, 0);
            lemma_weight_bounded_by_dead(mid.blocks@, b);
            let w_mid = score_weight(mid.blocks@);
            let s0 = old(self).score as int;
            let s2 = self.score as int;
            assert(s2 + 10 * b * n2 <= SCORE_LIMIT) by (nonlinear_arith)
                requires
                    s2 == s0 + 10 * w_mid,
                    0 <= w_mid,
                    w_mid <= b * (n - n2),
                    0 <= n2 <= n,
                    0 <= b,
                    s0 + 10 * b * n <= SCORE_LIMIT as int,
            ;
        }
    }

    /// A fresh game on a screen of the given size: score zero, the
    /// displayed lives at their start value, the paddle centered near
    /// the bottom, a six-by-six grid of fresh blocks centered near the
    /// top, and one ball at the middle of the screen with the given
    /// initial velocity (normally a random unit direction pointing
    /// downward, chosen by the caller).
    pub fn new(screen_w: i64, screen_h: i64, vel_x: i64, vel_y: i64) -> (g: GameState)
        requires
            0 <= screen_w <= DIM_LIMIT,
            0 <= screen_h <= DIM_LIMIT,
            -VEL_UNIT <= vel_x <= VEL_UNIT,
            -VEL_UNIT <= vel_y <= VEL_UNIT,
        ensures
            g.wf(),
            g.score == 0,
            g.player_lives == START_PLAYER_LIVES,
            g.player.rect.x == screen_w / 2 - PLAYER_WIDTH / 2,
            g.player.rect.y == screen_h - 100,
            g.player.rect.w == PLAYER_WIDTH,
            g.player.rect.h == PLAYER_HEIGHT,
            g.blocks@.len() == GRID_COLS * GRID_ROWS,
            forall|k: int|
                0 <= k < g.blocks@.len() ==> (#[trigger] g.blocks@[k]).lives == BLOCK_START_LIVES
                    && g.blocks@[k].rect.x == grid_pos_x(screen_w as int, k)
                    && g.blocks@[k].rect.y == grid_pos_y(k) && g.blocks@[k].rect.w == BLOCK_WIDTH
                    && g.blocks@[k].rect.h == BLOCK_HEIGHT,
            g.balls@.len() == 1,
            g.balls@[0].rect.x == screen_w / 2,
            g.balls@[0].rect.y == screen_h / 2,
            g.balls@[0].rect.w == BALL_SIZE,
            g.balls@[0].rect.h == BALL_SIZE,
            g.balls@[0].vel.x == vel_x,
            g.balls@[0].vel.y == vel_y,
    {
        let player = Player::new(screen_w, screen_h);
        let grid_w = GRID_COLS * (BLOCK_WIDTH + GRID_PADDING);
        let origin_x = if screen_w >= grid_w {
            (screen_w - grid_w) / 2
        } else {
            -((grid_w - screen_w) / 2)
        };
        let mut blocks: Vec<Block> = Vec::new();
        let mut i: usize = 0;
        while i < 36
            invariant
                i <= 36,
                blocks@.len() == i,
                0 <= screen_w <= DIM_LIMIT,
                origin_x == grid_origin_x(screen_w as int),
                forall|k: int|
                    0 <= k < i ==> (#[trigger] blocks@[k]).lives == BLOCK_START_LIVES
                        && blocks@[k].rect.x == grid_pos_x(screen_w as int, k)
                        && blocks@[k].rect.y == grid_pos_y(k) && blocks@[k].rect.w == BLOCK_WIDTH
                        && blocks@[k].rect.h == BLOCK_HEIGHT,
            decreases 36 - i,
        {
            let col = (i % 6) as i64;
            let row = (i / 6) as i64;
            let b = Block::new(
                origin_x + col * (BLOCK_WIDTH + GRID_PADDING),
                50 + row * (BLOCK_HEIGHT + GRID_PADDING),
            );
            blocks.push(b);
            i = i + 1;
        }
        let ball = Ball::new(screen_w / 2, screen_h / 2, vel_x, vel_y);
        let mut balls: Vec<Ball> = Vec::new();
        balls.push(ball);
        GameState { score: 0, player_lives: START_PLAYER_LIVES, player, blocks, balls }
    }

    /// Executable check of `wf`, for a caller that has run frames and
    /// wants to confirm the state is still inside every bound before
    /// the next one.
    pub fn wf_check(&self) -> (ok: bool)
        ensures
            ok == self.wf(),
    {
        if !rect_ok_check(&self.player.rect) {
            return false;
        }
        if self.blocks.len() > MAX_BLOCKS {
            return false;
        }
        if self.balls.len() > MAX_BALLS {
            return false;
        }
        proof {
            let b = self.balls@.len() as int;
            let n = self.blocks@.len() as int;
            assert(0 <= SCORE_PER_BLOCK * b <= 10_000 && 0 <= SCORE_PER_BLOCK * b * n
                <= 1_000_000_000) by (nonlinear_arith)
                requires
                    0 <= b <= 1_000,
                    0 <= n <= 100_000,
            ;
        }
        let payout = SCORE_PER_BLOCK * (self.balls.len() as i64) * (self.blocks.len() as i64);
        if !(0 <= self.score && self.score <= SCORE_LIMIT) {
            return false;
        }
        if self.score + payout > SCORE_LIMIT {
            return false;
        }
        let mut i: usize = 0;
        while i < self.blocks.len()
            invariant
                i <= self.blocks@.len(),
                forall|k: int| 0 <= k < i ==> block_ok(#[trigger] self.blocks@[k]),
                forall|k: int| 0 <= k < i ==> (#[trigger] self.blocks@[k]).lives >= 1,
            decreases self.blocks@.len() - i,
        {
            let b = &self.blocks[i];
            if !(rect_ok_check(&b.rect) && 1 <= b.lives && b.lives <= LIVES_LIMIT) {
                return false;
            }
            i = i + 1;
        }
        let mut j: usize = 0;
        while j < self.balls.len()
            invariant
                j <= self.balls@.len(),
                forall|k: int| 0 <= k < j ==> ball_ok(#[trigger] self.balls@[k]),
            decreases self.balls@.len() - j,
        {
            let b = &self.balls[j];
            if !(-BALL_ROAM_LIMIT <= b.rect.x && b.rect.x <= BALL_ROAM_LIMIT && -BALL_ROAM_LIMIT
                <= b.rect.y && b.rect.y <= BALL_ROAM_LIMIT && 0 <= b.rect.w && b.rect.w
                <= SIZE_LIMIT && 0 <= b.rect.h && b.rect.h <= SIZE_LIMIT && -VEL_UNIT <= b.vel.x
                && b.vel.x <= VEL_UNIT && -VEL_UNIT <= b.vel.y && b.vel.y <= VEL_UNIT) {
                return false;
            }
            j = j + 1;
        }
        true
    }
}

} // verus!
