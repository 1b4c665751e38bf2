//! Axis-aligned rectangles, velocities, and the collision resolver.
//!
//! Coordinates are integers; the origin is top-left and y grows downward.
//! Velocities are fixed-point: a component of `VEL_UNIT` stands for one
//! full unit of speed, so a bounce that forces a component to "exactly 1"
//! sets it to `VEL_UNIT`.

use vstd::prelude::*;

verus! {

/// Fixed-point scale of velocity components: `VEL_UNIT` means 1.0.
pub const VEL_UNIT: i64 = 1000;

/// Largest magnitude a rectangle coordinate may have for the resolver.
pub const COORD_LIMIT: i64 = 0x0800_0000_0000_0000;

/// Largest width or height a rectangle may have for the resolver.
pub const SIZE_LIMIT: i64 = 0x1_0000_0000;

/// Bound on paddle and block coordinates in a well-formed game state,
/// and the range ball movement saturates at; far below `COORD_LIMIT`,
/// so one frame's movement and collision push-outs can never carry a
/// coordinate out of the resolver's range.
pub const POS_LIMIT: i64 = 0x4_0000_0000_0000;

/// Largest per-frame movement (in coordinate units) accepted by the
/// update functions.
pub const STEP_LIMIT: i64 = 0x10_0000;

/// Largest screen dimension the game functions accept.
pub const DIM_LIMIT: i64 = 1_000_000_000;

/// An axis-aligned box: top-left corner, width and height.
#[derive(Clone, Copy, PartialEq, Eq, Structural, Debug)]
pub struct Rect {
    pub x: i64,
    pub y: i64,
    pub w: i64,
    pub h: i64,
}

/// A 2D velocity in fixed-point units (`VEL_UNIT` = one unit of speed).
#[derive(Clone, Copy, PartialEq, Eq, Structural, Debug)]
pub struct Vel {
    pub x: i64,
    pub y: i64,
}

/// Coordinates and sizes small enough that the resolver's arithmetic
/// stays inside `i64`.
pub open spec fn rect_bounded(r: Rect) -> bool {
    &&& -COORD_LIMIT <= r.x <= COORD_LIMIT
    &&& -COORD_LIMIT <= r.y <= COORD_LIMIT
    &&& 0 <= r.w <= SIZE_LIMIT
    &&& 0 <= r.h <= SIZE_LIMIT
}

/// Both velocity components within one speed unit in magnitude.
pub open spec fn vel_bounded(v: Vel) -> bool {
    &&& -VEL_UNIT <= v.x <= VEL_UNIT
    &&& -VEL_UNIT <= v.y <= VEL_UNIT
}

/// Sign of an integer: -1, 0 or +1.
pub open spec fn signum(v: int) -> int {
    if v > 0 {
        1
    } else if v < 0 {
        -1
    } else {
        0
    }
}

/// Magnitude of an integer.
pub open spec fn abs_int(v: int) -> int {
    if v >= 0 {
        v
    } else {
        -v
    }
}

/// Extent of the horizontal overlap of two rectangles; negative when
/// they are separated along x.
pub open spec fn overlap_w(a: Rect, b: Rect) -> int {
    vstd::math::min(a.x + a.w, b.x + b.w) - vstd::math::max(a.x as int, b.x as int)
}

/// Extent of the vertical overlap of two rectangles; negative when they
/// are separated along y.
pub open spec fn overlap_h(a: Rect, b: Rect) -> int {
    vstd::math::min(a.y + a.h, b.y + b.h) - vstd::math::max(a.y as int, b.y as int)
}

/// Whether the two rectangles intersect. A shared edge or corner (zero
/// overlap extent) counts as an intersection.
pub open spec fn intersects(a: Rect, b: Rect) -> bool {
    overlap_w(a, b) >= 0 && overlap_h(a, b) >= 0
}

/// Twice the x coordinate of a rectangle's center (doubling avoids any
/// rounding when comparing centers).
pub open spec fn center2_x(r: Rect) -> int {
    2 * r.x + r.w
}

/// Twice the y coordinate of a rectangle's center.
pub open spec fn center2_y(r: Rect) -> int {
    2 * r.y + r.h
}

/// The resolver pushes along y exactly when the overlap is wider than
/// it is tall; otherwise it pushes along x.
pub open spec fn resolves_vertically(a: Rect, b: Rect) -> bool {
    overlap_w(a, b) > overlap_h(a, b)
}

/// Displacement that pushes the movable rectangle out of the static
/// one: by the overlap extent `ext`, against the direction `to_center`
/// of the vector between the centers (`-signum(to_center) * ext`).
pub open spec fn push_out(to_center: int, ext: int) -> int {
    if to_center > 0 {
        -ext
    } else if to_center < 0 {
        ext
    } else {
        0
    }
}

/// Velocity component after a bounce: the old component's magnitude,
/// pointing against the direction `to_center` of the vector between
/// the centers (`-signum(to_center) * abs(v)`); zero when the centers
/// align on that axis.
pub open spec fn bounce_vel(to_center: int, v: int) -> int {
    if to_center > 0 {
        -abs_int(v)
    } else if to_center < 0 {
        abs_int(v)
    } else {
        0
    }
}

/// Where the movable rectangle `a` ends up after being pushed out of
/// the static rectangle `b`: moved along one axis, away from `b`'s
/// center, by exactly the overlap extent on that axis.
pub open spec fn resolved_rect(a: Rect, b: Rect) -> Rect {
    if resolves_vertically(a, b) {
        Rect { y: (a.y + push_out(center2_y(b) - center2_y(a), overlap_h(a, b))) as i64, ..a }
    } else {
        Rect { x: (a.x + push_out(center2_x(b) - center2_x(a), overlap_w(a, b))) as i64, ..a }
    }
}

/// The velocity after resolution: on the resolved axis the component is
/// replaced by its own magnitude pointing away from `b`'s center (zero
/// when the centers align on that axis); the other axis is untouched.
pub open spec fn resolved_vel(a: Rect, vel: Vel, b: Rect) -> Vel {
    if resolves_vertically(a, b) {
        Vel { y: bounce_vel(center2_y(b) - center2_y(a), vel.y as int) as i64, ..vel }
    } else {
        Vel { x: bounce_vel(center2_x(b) - center2_x(a), vel.x as int) as i64, ..vel }
    }
}

/// Sign of an `i64`, as executable code.
fn signum_i64(v: i64) -> (s: i64)
    ensures
        s == signum(v as int),
{
    if v > 0 {
        1
    } else if v < 0 {
        -1
    } else {
        0
    }
}

/// Detects whether the movable rectangle `a` overlaps the static
/// rectangle `b` and, if so, pushes `a` out of `b` along the shallower
/// axis and turns the velocity component on that axis away from `b`.
///
/// Returns whether a collision was found. Without one, nothing changes.
pub fn resolve_collision(a: &mut Rect, vel: &mut Vel, b: &Rect) -> (hit: bool)
    requires
        rect_bounded(*old(a)),
        rect_bounded(*b),
        vel_bounded(*old(vel)),
    ensures
        hit == intersects(*old(a), *b),
        !hit ==> *final(a) == *old(a) && *final(vel) == *old(vel),
        hit ==> *final(a) == resolved_rect(*old(a), *b),
        hit ==> *final(vel) == resolved_vel(*old(a), *old(vel), *b),
        vel_bounded(*final(vel)),
        final(a).w == old(a).w && final(a).h == old(a).h,
        abs_int(final(a).x - old(a).x) <= old(a).w && abs_int(final(a).y - old(a).y) <= old(
            a,
        ).h,
{
    let left = if a.x >= b.x {
        a.x
    } else {
        b.x
    };
    let top = if a.y >= b.y {
        a.y
    } else {
        b.y
    };
    let a_right = a.x + a.w;
    let b_right = b.x + b.w;
    let right = if a_right <= b_right {
        a_right
    } else {
        b_right
    };
    let a_bottom = a.y + a.h;
    let b_bottom = b.y + b.h;
    let bottom = if a_bottom <= b_bottom {
        a_bottom
    } else {
        b_bottom
    };
    if right < left || bottom < top {
        return false;
    }
    let iw = right - left;
    let ih = bottom - top;
    let to_x2 = 2 * b.x + b.w - (2 * a.x + a.w);
    let to_y2 = 2 * b.y + b.h - (2 * a.y + a.h);
    if iw > ih {
        let s = signum_i64(to_y2);
        let vy_abs = if vel.y >= 0 {
            vel.y
        } else {
            -vel.y
        };
        if s > 0 {
            a.y = a.y - ih;
            vel.y = -vy_abs;
        } else if s < 0 {
            a.y = a.y + ih;
            vel.y = vy_abs;
        } else {
            vel.y = 0;
        }
    } else {
        let s = signum_i64(to_x2);
        let vx_abs = if vel.x >= 0 {
            vel.x
        } else {
            -vel.x
        };
        if s > 0 {
            a.x = a.x - iw;
            vel.x = -vx_abs;
        } else if s < 0 {
            a.x = a.x + iw;
            vel.x = vx_abs;
        } else {
            vel.x = 0;
        }
    }
    true
}

/// When the overlap is wider than tall, resolution touches only the
/// movable rectangle's y position and y velocity: x position, both
/// sizes and the x velocity come through unchanged.
pub proof fn lemma_vertical_resolution_changes_only_y(a: Rect, vel: Vel, b: Rect)
    requires
        intersects(a, b),
        resolves_vertically(a, b),
    ensures
        resolved_rect(a, b).x == a.x,
        resolved_rect(a, b).w == a.w,
        resolved_rect(a, b).h == a.h,
        resolved_vel(a, vel, b).x == vel.x,
{
}

/// When the overlap is at most as wide as it is tall, resolution
/// touches only the movable rectangle's x position and x velocity.
pub proof fn lemma_horizontal_resolution_changes_only_x(a: Rect, vel: Vel, b: Rect)
    requires
        intersects(a, b),
        !resolves_vertically(a, b),
    ensures
        resolved_rect(a, b).y == a.y,
        resolved_rect(a, b).w == a.w,
        resolved_rect(a, b).h == a.h,
        resolved_vel(a, vel, b).y == vel.y,
{
}

/// A vertical resolution pushes the movable rectangle by exactly the
/// overlap height, and afterwards the two rectangles no longer overlap
/// along y: the pushed-out extent is exactly zero (they touch).
///
/// This needs the spans on the resolved axis to be ordered the same way
/// as the centers; when one rectangle's y span contains the other's,
/// the push by the overlap extent does not separate them.
pub proof fn lemma_vertical_resolution_separates(a: Rect, vel: Vel, b: Rect)
    requires
        rect_bounded(a),
        rect_bounded(b),
        intersects(a, b),
        resolves_vertically(a, b),
        center2_y(a) != center2_y(b),
        center2_y(a) < center2_y(b) ==> a.y <= b.y && a.y + a.h <= b.y + b.h,
        center2_y(a) > center2_y(b) ==> b.y <= a.y && b.y + b.h <= a.y + a.h,
    ensures
        abs_int(resolved_rect(a, b).y - a.y) == overlap_h(a, b),
        overlap_h(resolved_rect(a, b), b) == 0,
{
}

/// Mirror of `lemma_vertical_resolution_separates` for the x axis.
pub proof fn lemma_horizontal_resolution_separates(a: Rect, vel: Vel, b: Rect)
    requires
        rect_bounded(a),
        rect_bounded(b),
        intersects(a, b),
        !resolves_vertically(a, b),
        center2_x(a) != center2_x(b),
        center2_x(a) < center2_x(b) ==> a.x <= b.x && a.x + a.w <= b.x + b.w,
        center2_x(a) > center2_x(b) ==> b.x <= a.x && b.x + b.w <= a.x + a.w,
    ensures
        abs_int(resolved_rect(a, b).x - a.x) == overlap_w(a, b),
        overlap_w(resolved_rect(a, b), b) == 0,
{
}

} // verus!
