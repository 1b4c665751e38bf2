//! The ball: a rectangle with a fixed-point velocity, moved every
//! frame and turned around at the left, right and top screen edges.

use vstd::prelude::*;
use crate::geom::COORD_LIMIT;
use crate::geom::DIM_LIMIT;
use crate::geom::POS_LIMIT;
use crate::geom::Rect;
use crate::geom::STEP_LIMIT;
use crate::geom::VEL_UNIT;
use crate::geom::Vel;
use crate::geom::vel_bounded;
use vstd::arithmetic::div_mod::lemma_div_is_ordered;
use vstd::arithmetic::div_mod::lemma_div_multiples_vanish;
use vstd::arithmetic::mul::lemma_mul_inequality;
use vstd::arithmetic::mul::lemma_mul_nonnegative;

verus! {

/// Side length of the (square) ball.
pub const BALL_SIZE: i64 = 50;

/// Ball speed in coordinate units per second.
pub const BALL_SPEED: i64 = 400;

/// The ball. Its velocity is a fixed-point vector (`VEL_UNIT` means a
/// full unit of speed); the caller turns the frame time into a `step`
/// of `frame_seconds * BALL_SPEED` coordinate units, and each frame
/// the ball travels `vel / VEL_UNIT` of that step along each axis.
#[derive(Clone, Copy, PartialEq, Eq, Structural, Debug)]
pub struct Ball {
    pub rect: Rect,
    pub vel: Vel,
}

/// Displacement along one axis for a velocity component `v` and a
/// frame step: `v * step / VEL_UNIT`, rounded toward zero.
pub open spec fn scaled_step(v: int, step: int) -> int {
    if v >= 0 {
        (v * step) / (VEL_UNIT as int)
    } else {
        -(((-v) * step) / (VEL_UNIT as int))
    }
}

/// A coordinate saturated at the position range: far beyond any screen
/// (the float original's positions likewise stop growing once they
/// dwarf the per-frame step), and what keeps every frame's arithmetic
/// inside `i64` however many frames run.
pub open spec fn clamp_pos(v: int) -> int {
    if v < -POS_LIMIT {
        -POS_LIMIT as int
    } else if v > POS_LIMIT {
        POS_LIMIT as int
    } else {
        v
    }
}

/// The ball after one update on a screen `screen_w` wide: the position
/// advances by the scaled velocity (saturating at the position range),
/// and a component that carried the ball past the left, right or top
/// edge is reset to exactly one speed unit pointing back in (the right
/// edge wins over the left on a screen narrower than the ball). The
/// bottom edge is not handled: a ball below the screen keeps its
/// downward velocity.
pub open spec fn ball_stepped(pre: Ball, step: int, screen_w: int) -> Ball {
    let nx = clamp_pos(pre.rect.x + scaled_step(pre.vel.x as int, step));
    let ny = clamp_pos(pre.rect.y + scaled_step(pre.vel.y as int, step));
    Ball {
        rect: Rect { x: nx as i64, y: ny as i64, w: pre.rect.w, h: pre.rect.h },
        vel: Vel {
            x: if nx > screen_w - pre.rect.w {
                (-VEL_UNIT) as i64
            } else if nx < 0 {
                VEL_UNIT
            } else {
                pre.vel.x
            },
            y: if ny < 0 {
                VEL_UNIT
            } else {
                pre.vel.y
            },
        },
    }
}

/// Exact relation between the ball before and after one update.
pub open spec fn ball_step_ok(pre: Ball, post: Ball, step: int, screen_w: int) -> bool {
    post == ball_stepped(pre, step, screen_w)
}

/// `v * step / VEL_UNIT` as executable code, with its bounds.
fn scaled_i64(v: i64, step: i64) -> (d: i64)
    requires
        -VEL_UNIT <= v <= VEL_UNIT,
        0 <= step <= STEP_LIMIT,
    ensures
        d == scaled_step(v as int, step as int),
        -step <= d <= step,
{
    proof {
        let m = if v >= 0 {
            v as int
        } else {
            -v as int
        };
        lemma_mul_nonnegative(m, step as int);
        lemma_mul_inequality(m, VEL_UNIT as int, step as int);
        lemma_div_is_ordered(0, m * step, VEL_UNIT as int);
        lemma_div_is_ordered(m * step, (VEL_UNIT as int) * step, VEL_UNIT as int);
        lemma_div_multiples_vanish(step as int, VEL_UNIT as int);
    }
    if v >= 0 {
        (v * step) / VEL_UNIT
    } else {
        -((-v * step) / VEL_UNIT)
    }
}

impl Ball {
    /// A ball with its top-left corner at the given position and the
    /// given initial velocity (normally a unit direction vector,
    /// pointing downward, chosen by the caller).
    pub fn new(x: i64, y: i64, vel_x: i64, vel_y: i64) -> (ball: Ball)
        requires
            -POS_LIMIT <= x <= POS_LIMIT,
            -POS_LIMIT <= y <= POS_LIMIT,
            -VEL_UNIT <= vel_x <= VEL_UNIT,
            -VEL_UNIT <= vel_y <= VEL_UNIT,
        ensures
            ball.rect == (Rect { x, y, w: BALL_SIZE, h: BALL_SIZE }),
            ball.vel == (Vel { x: vel_x, y: vel_y }),
    {
        Ball { rect: Rect { x, y, w: BALL_SIZE, h: BALL_SIZE }, vel: Vel { x: vel_x, y: vel_y } }
    }

    /// Advances the ball by one frame `step` and handles the screen
    /// edges: leaving through the left, right or top edge forces the
    /// velocity component on that axis to exactly one speed unit
    /// pointing back into the screen. The position saturates at the
    /// position range, so the result is always back inside it.
    pub fn update(&mut self, step: i64, screen_w: i64)
        requires
            0 <= step <= STEP_LIMIT,
            0 <= screen_w <= DIM_LIMIT,
            vel_bounded(old(self).vel),
            -COORD_LIMIT <= old(self).rect.x <= COORD_LIMIT,
            -COORD_LIMIT <= old(self).rect.y <= COORD_LIMIT,
            0 <= old(self).rect.w,
        ensures
            ball_step_ok(*old(self), *final(self), step as int, screen_w as int),
            vel_bounded(final(self).vel),
            -POS_LIMIT <= final(self).rect.x <= POS_LIMIT,
            -POS_LIMIT <= final(self).rect.y <= POS_LIMIT,
            final(self).rect.w == old(self).rect.w,
            final(self).rect.h == old(self).rect.h,
    {
        let dx = scaled_i64(self.vel.x, step);
        let dy = scaled_i64(self.vel.y, step);
        let mut nx = self.rect.x + dx;
        if nx < -POS_LIMIT {
            nx = -POS_LIMIT;
        }
        if nx > POS_LIMIT {
            nx = POS_LIMIT;
        }
        let mut ny = self.rect.y + dy;
        if ny < -POS_LIMIT {
            ny = -POS_LIMIT;
        }
        if ny > POS_LIMIT {
            ny = POS_LIMIT;
        }
        self.rect.x = nx;
        self.rect.y = ny;
        if self.rect.x < 0 {
            self.vel.x = VEL_UNIT;
        }
        if self.rect.x > screen_w - self.rect.w {
            self.vel.x = -VEL_UNIT;
        }
        if self.rect.y < 0 {
            self.vel.y = VEL_UNIT;
        }
    }
}

} // verus!
