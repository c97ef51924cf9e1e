//! Deterministic motion of a point inside a square arena with reflecting walls.

use vstd::prelude::*;

verus! {

/// Arena width in pixels.
pub const ARENA_WIDTH: i64 = 400;
/// Arena height in pixels.
pub const ARENA_HEIGHT: i64 = 400;
/// Radius of the ball; a wall is hit when the centre comes this close to it.
pub const BALL_RADIUS: i64 = 20;
/// How far the centre is pushed back into the arena after a wall hit.
pub const WALL_PADDING: i64 = 20;

/// A point, or a velocity, in whole pixels.
#[derive(Clone, Copy, Debug, PartialEq, Eq, Structural)]
pub struct Point {
    pub x: i64,
    pub y: i64,
}

/// The centre lies strictly between the two walls of an axis of extent `size`.
pub open spec fn within_walls(c: int, size: int) -> bool {
    -(size / 2 - BALL_RADIUS) < c < size / 2 - BALL_RADIUS
}

/// A speed along one axis small enough for the padding to keep the centre inside.
pub open spec fn slow_enough(v: int) -> bool {
    -WALL_PADDING <= v <= WALL_PADDING
}

/// A coordinate lies strictly inside an arena of extent `size`.
pub open spec fn inside_arena(c: int, size: int) -> bool {
    -(size / 2) < c < size / 2
}

/// One step along one axis: move, and on reaching a wall reverse the speed and
/// push the centre back by the padding. Yields the new coordinate and speed.
pub open spec fn axis_step(c: int, v: int, size: int) -> (int, int) {
    let moved = c + v;
    if moved <= -(size / 2) + BALL_RADIUS {
        (moved + WALL_PADDING, -v)
    } else if moved >= size / 2 - BALL_RADIUS {
        (moved - WALL_PADDING, -v)
    } else {
        (moved, v)
    }
}

impl Point {
    /// Both coordinates lie strictly between the walls.
    pub open spec fn within_walls(self) -> bool {
        within_walls(self.x as int, ARENA_WIDTH as int) && within_walls(self.y as int, ARENA_HEIGHT as int)
    }

    /// Both components are small enough to be used as a velocity.
    pub open spec fn slow_enough(self) -> bool {
        slow_enough(self.x as int) && slow_enough(self.y as int)
    }

    /// Both coordinates lie strictly inside the arena.
    pub open spec fn inside_arena(self) -> bool {
        inside_arena(self.x as int, ARENA_WIDTH as int) && inside_arena(self.y as int, ARENA_HEIGHT as int)
    }
}

/// A centre between the walls moved by a slow enough speed stays between them,
/// and the speed keeps its magnitude.
pub proof fn lemma_axis_step_stays_within(c: int, v: int, size: int)
    requires
        size == 400,
        within_walls(c, size),
        slow_enough(v),
    ensures
        within_walls(axis_step(c, v, size).0, size),
        slow_enough(axis_step(c, v, size).1),
        inside_arena(axis_step(c, v, size).0, size),
{
}

fn axis_update(c: i64, v: i64, size: i64) -> (r: (i64, i64))
    requires
        size == 400,
        within_walls(c as int, size as int),
        slow_enough(v as int),
    ensures
        (r.0 as int, r.1 as int) == axis_step(c as int, v as int, size as int),
{
    let half = size / 2;
    let moved = c + v;
    if moved <= -half + BALL_RADIUS {
        (moved + WALL_PADDING, -v)
    } else if moved >= half - BALL_RADIUS {
        (moved - WALL_PADDING, -v)
    } else {
        (moved, v)
    }
}

/// Advances `point` by `v` for one tick, reflecting off the walls, and returns
/// the new position.
pub fn update_movement(point: &mut Point, v: &mut Point) -> (r: Point)
    requires
        old(point).within_walls(),
        old(v).slow_enough(),
    ensures
        (final(point).x as int, final(v).x as int) == axis_step(old(point).x as int, old(v).x as int, ARENA_WIDTH as int),
        (final(point).y as int, final(v).y as int) == axis_step(old(point).y as int, old(v).y as int, ARENA_HEIGHT as int),
        final(point).within_walls(),
        final(v).slow_enough(),
        r == *final(point),
        r.inside_arena(),
{
    proof {
        lemma_axis_step_stays_within(point.x as int, v.x as int, ARENA_WIDTH as int);
        lemma_axis_step_stays_within(point.y as int, v.y as int, ARENA_HEIGHT as int);
    }
    let (px, vx) = axis_update(point.x, v.x, ARENA_WIDTH);
    let (py, vy) = axis_update(point.y, v.y, ARENA_HEIGHT);
    point.x = px;
    point.y = py;
    v.x = vx;
    v.y = vy;
    *point
}

} // verus!
