//! The movement rule that every walking actor shares: try a step along one
//! axis, and stay exactly where you were if the place you would reach is
//! not allowed.  The two axes are always tried one after the other, so an
//! actor pushed diagonally into a wall slides along it.

use vstd::prelude::*;
use crate::fixed::{clamp_coord, clamp_to_coord, in_coord_range, Vec2};

verus! {

/// One of the two directions of travel.
#[derive(Clone, Copy, Debug, PartialEq, Eq, Structural)]
pub enum Axis {
    X,
    Y,
}

/// What an attempted step ran into.
#[derive(Clone, Copy, Debug, PartialEq, Eq, Structural)]
pub struct StepReport {
    /// The step was refused and the actor did not move.
    pub blocked: bool,
    /// The place the actor tried to reach overlaps the player.
    pub touched: bool,
}

/// The component of `v` along `axis`.
pub open spec fn coord(v: Vec2, axis: Axis) -> int {
    match axis {
        Axis::X => v.x as int,
        Axis::Y => v.y as int,
    }
}

/// The vector of signed length `v` along `axis`.
pub open spec fn along(axis: Axis, v: i32) -> Vec2 {
    match axis {
        Axis::X => Vec2 { x: v, y: 0 },
        Axis::Y => Vec2 { x: 0, y: v },
    }
}

/// Whether a step of `delta` along `axis` stays within the coordinates that
/// can be stored.
pub open spec fn reachable(pos: Vec2, axis: Axis, delta: int) -> bool {
    in_coord_range(coord(pos, axis) + delta)
}

/// The place reached from `pos` by a step of `delta` along `axis`.
pub open spec fn moved(pos: Vec2, axis: Axis, delta: int) -> Vec2 {
    match axis {
        Axis::X => Vec2 { x: (pos.x + delta) as i32, y: pos.y },
        Axis::Y => Vec2 { x: pos.x, y: (pos.y + delta) as i32 },
    }
}

/// Where an actor ends up after attempting a step: at the place the step
/// leads to, or, when blocked, exactly where it started.
pub open spec fn resolved(pos: Vec2, axis: Axis, delta: int, blocked: bool) -> Vec2 {
    if blocked {
        pos
    } else {
        moved(pos, axis, delta)
    }
}

/// The place reached by drifting `(dx, dy)` from `pos` with nothing in the
/// way, held at the edge of the coordinate range.
pub open spec fn drifted(pos: Vec2, dx: int, dy: int) -> Vec2 {
    Vec2 { x: clamp_coord(pos.x + dx) as i32, y: clamp_coord(pos.y + dy) as i32 }
}

/// A step changes only the coordinate along its axis, by exactly `delta`,
/// and a refused step changes nothing at all.
pub proof fn lemma_step_is_axis_separated(pos: Vec2, axis: Axis, delta: int, blocked: bool)
    requires
        reachable(pos, axis, delta),
    ensures
        resolved(pos, axis, delta, true) == pos,
        coord(resolved(pos, axis, delta, false), axis) == coord(pos, axis) + delta,
        axis == Axis::X ==> resolved(pos, axis, delta, blocked).y == pos.y,
        axis == Axis::Y ==> resolved(pos, axis, delta, blocked).x == pos.x,
{
}

/// Computes the place a step leads to, if it can be stored.
pub fn advance(pos: Vec2, axis: Axis, delta: i64) -> (target: Option<Vec2>)
    ensures
        target == (if reachable(pos, axis, delta as int) {
            Some(moved(pos, axis, delta as int))
        } else {
            None
        }),
{
    let from: i32 = match axis {
        Axis::X => pos.x,
        Axis::Y => pos.y,
    };
    let to: i128 = from as i128 + delta as i128;
    if to < -2147483648 || to > 2147483647 {
        return None;
    }
    match axis {
        Axis::X => Some(Vec2 { x: to as i32, y: pos.y }),
        Axis::Y => Some(Vec2 { x: pos.x, y: to as i32 }),
    }
}

/// Computes the place an unobstructed drift leads to.
pub fn drift(pos: Vec2, dx: i64, dy: i64) -> (target: Vec2)
    ensures
        target == drifted(pos, dx as int, dy as int),
{
    Vec2 { x: clamp_to_coord(pos.x as i128 + dx as i128), y: clamp_to_coord(pos.y as i128 + dy as i128) }
}

} // verus!
