//! What every actor on the map has in common: a centre and an extent.

use vstd::prelude::*;
use crate::fixed::Vec2;
use crate::level::{Level, TILE_SIZE};

verus! {

/// Anything that occupies an axis-aligned box centred on its position.
pub trait Entity {
    /// The centre of the box.
    spec fn spec_pos(&self) -> Vec2;

    /// The width and height of the box.
    spec fn spec_dim(&self) -> Vec2;

    fn pos(&self) -> (p: Vec2)
        ensures
            p == self.spec_pos(),
    ;

    fn dim(&self) -> (d: Vec2)
        ensures
            d == self.spec_dim(),
    ;
}

/// An extent that encloses some area.
pub open spec fn solid_extent(dim: Vec2) -> bool {
    dim.x > 0 && dim.y > 0
}

/// Whether the intervals of length `len1` and `len2` centred on `c1` and
/// `c2` share more than an end point.  Both sides are doubled so that odd
/// lengths need no halving.
pub open spec fn spans_overlap(c1: int, len1: int, c2: int, len2: int) -> bool {
    2 * c1 - len1 < 2 * c2 + len2 && 2 * c2 - len2 < 2 * c1 + len1
}

/// Whether two centred boxes intersect in an area; boxes that merely touch
/// along an edge or at a corner do not.
pub open spec fn boxes_overlap(pos1: Vec2, dim1: Vec2, pos2: Vec2, dim2: Vec2) -> bool {
    spans_overlap(pos1.x as int, dim1.x as int, pos2.x as int, dim2.x as int) && spans_overlap(
        pos1.y as int,
        dim1.y as int,
        pos2.y as int,
        dim2.y as int,
    )
}

/// Whether a point lies outside the rectangle that the level's tiles cover.
/// Points on the rectangle's border are still inside.
pub open spec fn outside_level(pos: Vec2, lvl: Level) -> bool {
    pos.x < 0 || pos.y < 0 || pos.x > lvl.width * TILE_SIZE || pos.y > lvl.height * TILE_SIZE
}

/// Tests two centred boxes for overlap.
pub fn boxes_collide(pos1: Vec2, dim1: Vec2, pos2: Vec2, dim2: Vec2) -> (hit: bool)
    requires
        solid_extent(dim1),
        solid_extent(dim2),
    ensures
        hit == boxes_overlap(pos1, dim1, pos2, dim2),
{
    let x1: i64 = 2 * (pos1.x as i64);
    let y1: i64 = 2 * (pos1.y as i64);
    let x2: i64 = 2 * (pos2.x as i64);
    let y2: i64 = 2 * (pos2.y as i64);
    let w1: i64 = dim1.x as i64;
    let h1: i64 = dim1.y as i64;
    let w2: i64 = dim2.x as i64;
    let h2: i64 = dim2.y as i64;
    x1 - w1 < x2 + w2 && x2 - w2 < x1 + w1 && y1 - h1 < y2 + h2 && y2 - h2 < y1 + h1
}

/// Tests whether the boxes of two actors overlap.  Neither actor may be
/// degenerate: an overlap test is only ever made between boxes with area.
pub fn collides<A: Entity, B: Entity>(entity1: &A, entity2: &B) -> (hit: bool)
    requires
        solid_extent(entity1.spec_dim()),
        solid_extent(entity2.spec_dim()),
    ensures
        hit == boxes_overlap(
            entity1.spec_pos(),
            entity1.spec_dim(),
            entity2.spec_pos(),
            entity2.spec_dim(),
        ),
{
    boxes_collide(entity1.pos(), entity1.dim(), entity2.pos(), entity2.dim())
}

/// Compares a position with the level's pixel rectangle.
pub fn pos_out_of_lvl_bounds(pos: Vec2, lvl: &Level) -> (out: bool)
    ensures
        out == outside_level(pos, *lvl),
{
    if pos.x < 0 || pos.y < 0 {
        return true;
    }
    let w: u128 = lvl.width as u128 * 8192;
    let h: u128 = lvl.height as u128 * 8192;
    pos.x as u128 > w || pos.y as u128 > h
}

/// Tests whether an actor's centre has left the level.
pub fn is_out_of_lvl_bounds<E: Entity>(entity: &E, lvl: &Level) -> (out: bool)
    ensures
        out == outside_level(entity.spec_pos(), *lvl),
{
    pos_out_of_lvl_bounds(entity.pos(), lvl)
}

} // verus!
