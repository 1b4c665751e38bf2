//! The paddle: a rectangle driven left and right by two key states,
//! clamped to the screen.

use vstd::prelude::*;
use crate::geom::DIM_LIMIT;
use crate::geom::POS_LIMIT;
use crate::geom::Rect;
use crate::geom::STEP_LIMIT;
use crate::geom::rect_bounded;

verus! {

/// Width of the paddle.
pub const PLAYER_WIDTH: i64 = 150;

/// Height of the paddle.
pub const PLAYER_HEIGHT: i64 = 40;

/// Paddle speed in coordinate units per second.
pub const PLAYER_SPEED: i64 = 700;

/// The paddle. Its speed constant is `PLAYER_SPEED` coordinate units
/// per second; the caller turns the frame time into a `step` of
/// `frame_seconds * PLAYER_SPEED` units.
#[derive(Clone, Copy, PartialEq, Eq, Structural, Debug)]
pub struct Player {
    pub rect: Rect,
}

/// The x position after applying the key-driven movement: one `step`
/// left when only the left key is down, one right when only the right
/// key is down, and no movement when both or neither are down.
pub open spec fn moved_x(x: int, left_down: bool, right_down: bool, step: int) -> int {
    if left_down && !right_down {
        x - step
    } else if right_down && !left_down {
        x + step
    } else {
        x
    }
}

/// The x position clamped to the screen: first raised to 0, then
/// capped at `screen_w - w` (in that order, so a screen narrower than
/// the paddle leaves x at the negative `screen_w - w`).
pub open spec fn clamped_x(x: int, screen_w: int, w: int) -> int {
    let lifted = if x < 0 {
        0
    } else {
        x
    };
    if lifted > screen_w - w {
        screen_w - w
    } else {
        lifted
    }
}

/// Exact relation between the paddle before and after one update.
pub open spec fn player_step_ok(
    pre: Player,
    post: Player,
    left_down: bool,
    right_down: bool,
    step: int,
    screen_w: int,
) -> bool {
    &&& post.rect.x == clamped_x(
        moved_x(pre.rect.x as int, left_down, right_down, step),
        screen_w,
        pre.rect.w as int,
    )
    &&& post.rect.y == pre.rect.y
    &&& post.rect.w == pre.rect.w
    &&& post.rect.h == pre.rect.h
}

impl Player {
    /// A paddle horizontally centered near the bottom of a screen of
    /// the given size.
    pub fn new(screen_w: i64, screen_h: i64) -> (p: Player)
        requires
            0 <= screen_w <= DIM_LIMIT,
            0 <= screen_h <= DIM_LIMIT,
        ensures
            p.rect.x == screen_w / 2 - PLAYER_WIDTH / 2,
            p.rect.y == screen_h - 100,
            p.rect.w == PLAYER_WIDTH,
            p.rect.h == PLAYER_HEIGHT,
    {
        Player {
            rect: Rect {
                x: screen_w / 2 - PLAYER_WIDTH / 2,
                y: screen_h - 100,
                w: PLAYER_WIDTH,
                h: PLAYER_HEIGHT,
            },
        }
    }

    /// Moves the paddle by `step` units in the direction the keys ask
    /// for and clamps it to the screen. After the update the paddle
    /// lies within `[0, screen_w - width]` whenever the screen is at
    /// least as wide as the paddle.
    pub fn update(&mut self, left_down: bool, right_down: bool, step: i64, screen_w: i64)
        requires
            0 <= step <= STEP_LIMIT,
            0 <= screen_w <= DIM_LIMIT,
            rect_bounded(old(self).rect),
        ensures
            player_step_ok(*old(self), *final(self), left_down, right_down, step as int, screen_w as int),
            old(self).rect.w <= screen_w ==> 0 <= final(self).rect.x <= screen_w - old(self).rect.w,
            rect_bounded(final(self).rect),
            -POS_LIMIT <= final(self).rect.x <= POS_LIMIT,
    {
        let mut x = self.rect.x;
        if left_down && !right_down {
            x = x - step;
        } else if right_down && !left_down {
            x = x + step;
        }
        if x < 0 {
            x = 0;
        }
        let cap = screen_w - self.rect.w;
        if x > cap {
            x = cap;
        }
        self.rect.x = x;
    }
}

} // verus!
