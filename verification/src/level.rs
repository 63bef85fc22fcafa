//! The tile grid: solidity, fog of war and index arithmetic.

use std::collections::HashMap;
use vstd::prelude::*;
use crate::error::ConfigError;
use crate::fixed::Vec2;

verus! {

/// The side of one tile in fixed-point world units (32 pixels).
pub const TILE_SIZE: i32 = 8192;

/// The extent of the playable world in fixed-point units.
#[derive(Clone, Copy, Debug, PartialEq, Eq, Structural)]
pub struct World {
    pub dim: Vec2,
}

/// How much of a tile the player currently sees.
#[derive(Clone, Copy, Debug, PartialEq, Eq, Structural)]
pub enum FogLevel {
    /// Never seen.
    Opaque,
    /// Seen before, out of sight now.
    HalfTransparent,
    /// In sight.
    Transparent,
}

/// One cell of the grid.
#[derive(Clone, Copy, Debug, PartialEq, Eq, Structural)]
pub struct Tile {
    pub fog: FogLevel,
    pub solid: bool,
    pub ch: char,
}

/// Column and row of a tile.
#[derive(Clone, Copy, Debug, PartialEq, Eq, Structural)]
pub struct TilePos {
    pub x: usize,
    pub y: usize,
}

/// A rectangular room of a generated level, in tiles.  `connections` holds
/// the indices of the rooms that a corridor leads to.
pub struct Room {
    pub x: usize,
    pub y: usize,
    pub w: usize,
    pub h: usize,
    pub connections: HashMap<usize, bool>,
}

/// A rectangular grid of tiles stored row by row, and the rooms that were
/// laid out on it if it was generated.
pub struct Level {
    pub width: usize,
    pub height: usize,
    pub tiles: Vec<Tile>,
    pub rooms: Vec<Room>,
}

/// Whether a tile character stands for walkable ground.
pub open spec fn is_floor_char(ch: char) -> bool {
    ch == 'c' || ch == 'd' || ch == 'e' || ch == 'f'
}

/// The fog state of a tile after one frame, given its state before and
/// whether the player's light reaches it.
pub open spec fn fog_next(fog: FogLevel, lit: bool) -> FogLevel {
    if lit {
        FogLevel::Transparent
    } else {
        match fog {
            FogLevel::Transparent => FogLevel::HalfTransparent,
            other => other,
        }
    }
}

/// Fog only ever lifts or fades: a tile never seen becomes transparent when
/// light reaches it and stays opaque otherwise; a transparent tile fades to
/// half transparent as soon as the light is gone; a half transparent tile
/// becomes transparent again when light returns; and no tile that has been
/// seen ever becomes opaque again.
pub proof fn lemma_fog_decay(fog: FogLevel, lit: bool)
    ensures
        fog_next(FogLevel::Opaque, true) == FogLevel::Transparent,
        fog_next(FogLevel::Opaque, false) == FogLevel::Opaque,
        fog_next(FogLevel::Transparent, true) == FogLevel::Transparent,
        fog_next(FogLevel::Transparent, false) == FogLevel::HalfTransparent,
        fog_next(FogLevel::HalfTransparent, true) == FogLevel::Transparent,
        fog_next(FogLevel::HalfTransparent, false) == FogLevel::HalfTransparent,
        fog != FogLevel::Opaque ==> fog_next(fog, lit) != FogLevel::Opaque,
{
}

/// Squared distance between the tiles at indices `i` and `j` of a grid that
/// is `width` tiles wide, measured in tiles.
pub open spec fn tile_dist_sq(i: int, j: int, width: int) -> int {
    let dx = i % width - j % width;
    let dy = i / width - j / width;
    dx * dx + dy * dy
}

/// Whether light of the given radius around tile `center` reaches tile `i`.
pub open spec fn tile_lit(i: int, center: int, width: int, radius: int) -> bool {
    tile_dist_sq(i, center, width) < radius * radius
}

/// The tiles that a level text describes: every character but the line
/// break is one tile, in reading order.
pub open spec fn tiles_of(s: Seq<char>) -> Seq<Tile>
    decreases s.len(),
{
    if s.len() == 0 {
        Seq::empty()
    } else if s.last() == '\n' {
        tiles_of(s.drop_last())
    } else {
        tiles_of(s.drop_last()).push(Tile::spec_from_char(s.last()))
    }
}

/// The number of line breaks in a level text.
pub open spec fn rows_of(s: Seq<char>) -> nat
    decreases s.len(),
{
    if s.len() == 0 {
        0
    } else if s.last() == '\n' {
        rows_of(s.drop_last()) + 1
    } else {
        rows_of(s.drop_last())
    }
}

impl Tile {
    /// The tile that `ch` stands for, not yet seen by the player.
    pub open spec fn spec_from_char(ch: char) -> Tile {
        Tile { fog: FogLevel::Opaque, solid: !is_floor_char(ch), ch }
    }

    /// Builds the tile that `ch` stands for.  Only the four floor
    /// characters are walkable.
    pub fn from_char(ch: char) -> (t: Tile)
        ensures
            t == Tile::spec_from_char(ch),
    {
        Tile { fog: FogLevel::Opaque, solid: !(ch == 'c' || ch == 'd' || ch == 'e' || ch == 'f'), ch }
    }
}

impl World {
    /// The world that a level's tiles span, if its extent can be stored.
    pub fn from_level(lvl: &Level) -> (w: Option<World>)
        ensures
            match w {
                Some(world) => world.dim.x == lvl.width * TILE_SIZE && world.dim.y == lvl.height
                    * TILE_SIZE,
                None => lvl.width * TILE_SIZE > i32::MAX || lvl.height * TILE_SIZE > i32::MAX,
            },
    {
        if lvl.width > 262143 || lvl.height > 262143 {
            return None;
        }
        Some(World { dim: Vec2 { x: (lvl.width * 8192) as i32, y: (lvl.height * 8192) as i32 } })
    }
}

impl Level {
    /// The tiles fill the grid exactly.
    pub open spec fn wf(&self) -> bool {
        self.tiles@.len() == self.width * self.height
    }

    /// Reads a level from text.  Each line break ends a row; every other
    /// character is a tile.  The text must hold at least one line break and
    /// its tiles must divide evenly among the rows.
    pub fn load_from_string(level_string: &str) -> (r: Result<Level, ConfigError>)
        ensures
            match r {
                Ok(lvl) => {
                    &&& rows_of(level_string@) > 0
                    &&& tiles_of(level_string@).len() % rows_of(level_string@) == 0
                    &&& lvl.tiles@ == tiles_of(level_string@)
                    &&& lvl.height == rows_of(level_string@)
                    &&& lvl.width == tiles_of(level_string@).len() / rows_of(level_string@)
                    &&& lvl.rooms@.len() == 0
                    &&& lvl.wf()
                },
                Err(e) => {
                    &&& e == ConfigError::MalformedLevel
                    &&& (rows_of(level_string@) == 0 || tiles_of(level_string@).len() % rows_of(
                        level_string@,
                    ) != 0)
                },
            },
    {
        let mut tiles: Vec<Tile> = Vec::new();
        let mut height: usize = 0;
        let n = level_string.unicode_len();
        for ch in it: level_string.chars()
            invariant
                n == level_string@.len(),
                it.seq() == level_string@,
                tiles@ == tiles_of(level_string@.take(it.index() as int)),
                height == rows_of(level_string@.take(it.index() as int)),
                height <= it.index() <= n,
        {
            proof {
                let k = it.index() as int;
                assert(level_string@.take(k + 1).drop_last() == level_string@.take(k));
                assert(level_string@.take(k + 1).last() == level_string@[k]);
            }
            if ch == '\n' {
                height = height + 1;
            } else {
                tiles.push(Tile::from_char(ch));
            }
        }
        assert(level_string@.take(n as int) == level_string@);
        if height == 0 || tiles.len() % height != 0 {
            return Err(ConfigError::MalformedLevel);
        }
        let width = tiles.len() / height;
        proof {
            vstd::arithmetic::div_mod::lemma_fundamental_div_mod(tiles@.len() as int, height as int);
            vstd::arithmetic::mul::lemma_mul_is_commutative(width as int, height as int);
        }
        Ok(Level { width, height, tiles, rooms: Vec::new() })
    }

    /// The index of the tile under `pos`, if `pos` lies on a tile.
    pub open spec fn spec_tile_index_at(&self, pos: Vec2) -> Option<int> {
        let x = pos.x as int / TILE_SIZE as int;
        let y = pos.y as int / TILE_SIZE as int;
        if pos.x >= 0 && pos.y >= 0 && x < self.width && y * self.width + x < self.tiles@.len() {
            Some(y * self.width + x)
        } else {
            None
        }
    }

    /// Whether `pos` lies on a tile that blocks movement.
    pub open spec fn spec_is_solid_at(&self, pos: Vec2) -> bool {
        match self.spec_tile_index_at(pos) {
            Some(i) => self.tiles@[i].solid,
            None => false,
        }
    }

    /// Whether `pos` lies on a tile that is out of the player's sight.
    pub open spec fn spec_is_fog_of_war_at(&self, pos: Vec2) -> bool {
        match self.spec_tile_index_at(pos) {
            Some(i) => self.tiles@[i].fog != FogLevel::Transparent,
            None => false,
        }
    }

    /// The tiles after the fog has been updated for a player standing at
    /// `player_pos`.  A player who stands on no tile changes nothing.
    pub open spec fn spec_fog_after(&self, player_pos: Vec2, light_radius: usize) -> Seq<Tile> {
        match self.spec_tile_index_at(player_pos) {
            Some(center) => Seq::new(
                self.tiles@.len(),
                |i: int|
                    Tile {
                        fog: fog_next(
                            self.tiles@[i].fog,
                            tile_lit(i, center, self.width as int, light_radius as int),
                        ),
                        ..self.tiles@[i]
                    },
            ),
            None => self.tiles@,
        }
    }

    /// Finds the tile under a position.  Positions left of, above, right of
    /// or below the grid have none.
    pub fn tile_index_at(&self, pos: Vec2) -> (index: Option<usize>)
        ensures
            match index {
                Some(i) => self.spec_tile_index_at(pos) == Some(i as int) && i < self.tiles@.len(),
                None => self.spec_tile_index_at(pos) is None,
            },
    {
        if pos.x < 0 || pos.y < 0 {
            return None;
        }
        let x: u128 = (pos.x / TILE_SIZE) as u128;
        let y: u128 = (pos.y / TILE_SIZE) as u128;
        if x >= self.width as u128 {
            return None;
        }
        assert(y * (self.width as u128) <= 0x4_0000 * 0xFFFF_FFFF_FFFF_FFFF) by (nonlinear_arith)
            requires
                0 <= y <= 0x4_0000,
                0 <= self.width as u128 <= 0xFFFF_FFFF_FFFF_FFFF,
        ;
        let index: u128 = y * (self.width as u128) + x;
        if index < self.tiles.len() as u128 {
            Some(index as usize)
        } else {
            None
        }
    }

    /// Off-grid positions are passable.
    pub fn is_solid_at(&self, pos: Vec2) -> (solid: bool)
        ensures
            solid == self.spec_is_solid_at(pos),
    {
        match self.tile_index_at(pos) {
            Some(index) => self.tiles[index].solid,
            None => false,
        }
    }

    /// Off-grid positions are never fogged.
    pub fn is_fog_of_war_at(&self, pos: Vec2) -> (fogged: bool)
        ensures
            fogged == self.spec_is_fog_of_war_at(pos),
    {
        match self.tile_index_at(pos) {
            Some(index) => match self.tiles[index].fog {
                FogLevel::Opaque => true,
                FogLevel::HalfTransparent => true,
                FogLevel::Transparent => false,
            },
            None => false,
        }
    }

    /// Tests whether light of radius `light_radius` (in tiles) around tile
    /// `center` reaches tile `tile_index`.
    pub fn is_tile_lit(&self, tile_index: usize, center: usize, light_radius: usize) -> (lit: bool)
        requires
            self.width > 0,
        ensures
            lit == tile_lit(
                tile_index as int,
                center as int,
                self.width as int,
                light_radius as int,
            ),
    {
        let a = self.pos_by_index(tile_index);
        let b = self.pos_by_index(center);
        let dx: u128 = if a.x >= b.x {
            (a.x - b.x) as u128
        } else {
            (b.x - a.x) as u128
        };
        let dy: u128 = if a.y >= b.y {
            (a.y - b.y) as u128
        } else {
            (b.y - a.y) as u128
        };
        let r: u128 = light_radius as u128;
        proof {
            let sx = a.x as int - b.x as int;
            let sy = a.y as int - b.y as int;
            assert(sx * sx == dx * dx) by (nonlinear_arith)
                requires
                    sx == dx || sx == -dx,
            ;
            assert(sy * sy == dy * dy) by (nonlinear_arith)
                requires
                    sy == dy || sy == -dy,
            ;
            assert(dx * dx >= 0 && dy * dy >= 0) by (nonlinear_arith);
        }
        if dx >= r {
            assert(dx * dx >= r * r) by (nonlinear_arith)
                requires
                    dx >= r >= 0,
            ;
            return false;
        }
        if dy >= r {
            assert(dy * dy >= r * r) by (nonlinear_arith)
                requires
                    dy >= r >= 0,
            ;
            return false;
        }
        assert(dx * dx < r * r <= u128::MAX) by (nonlinear_arith)
            requires
                0 <= dx < r <= 0xFFFF_FFFF_FFFF_FFFF,
        ;
        assert(dy * dy < r * r) by (nonlinear_arith)
            requires
                0 <= dy < r,
        ;
        dy * dy < r * r - dx * dx
    }

    /// Lets the fog follow the player: tiles within `light_radius` tiles of
    /// the player's tile become transparent, transparent tiles that fall out
    /// of reach become half transparent, and every other tile keeps its
    /// state.  Nothing but the fog of a tile changes.
    pub fn update_fog(&mut self, player_pos: Vec2, light_radius: usize)
        ensures
            final(self).width == old(self).width,
            final(self).height == old(self).height,
            final(self).rooms == old(self).rooms,
            final(self).tiles@ == old(self).spec_fog_after(player_pos, light_radius),
    {
        let center = match self.tile_index_at(player_pos) {
            Some(center) => center,
            None => {
                return ;
            },
        };
        let n = self.tiles.len();
        let mut i: usize = 0;
        while i < n
            invariant
                i <= n == self.tiles@.len(),
                n == old(self).tiles@.len(),
                self.width == old(self).width,
                self.height == old(self).height,
                self.rooms == old(self).rooms,
                self.width > 0,
                old(self).spec_tile_index_at(player_pos) == Some(center as int),
                forall|j: int| 0 <= j < i ==> self.tiles@[j] == old(self).spec_fog_after(player_pos, light_radius)[j],
                forall|j: int| i <= j < n ==> self.tiles@[j] == old(self).tiles@[j],
            decreases n - i,
        {
            let lit = self.is_tile_lit(i, center, light_radius);
            if lit {
                self.tiles[i].fog = FogLevel::Transparent;
            } else {
                match self.tiles[i].fog {
                    FogLevel::Transparent => {
                        self.tiles[i].fog = FogLevel::HalfTransparent;
                    },
                    _ => {},
                }
            }
            i = i + 1;
        }
        assert(self.tiles@ =~= old(self).spec_fog_after(player_pos, light_radius));
    }

    /// The tile one row up, unless `tile_index` is in the top row.
    pub fn tile_index_above(&self, tile_index: usize) -> (above: Option<usize>)
        ensures
            above == (if tile_index >= self.width {
                Some((tile_index - self.width) as usize)
            } else {
                None
            }),
    {
        if tile_index >= self.width {
            Some(tile_index - self.width)
        } else {
            None
        }
    }

    /// The tile one row down, unless that would leave the grid.
    pub fn tile_index_below(&self, tile_index: usize) -> (below: Option<usize>)
        ensures
            below == (if tile_index + self.width < self.tiles@.len() {
                Some((tile_index + self.width) as usize)
            } else {
                None
            }),
    {
        if tile_index < self.tiles.len() && self.width < self.tiles.len() - tile_index {
            Some(tile_index + self.width)
        } else {
            None
        }
    }

    /// The tile one column left, unless `tile_index` is in the first column
    /// or the grid has no columns.
    pub fn tile_index_left(&self, tile_index: usize) -> (left: Option<usize>)
        ensures
            left == (if self.width > 0 && tile_index % self.width != 0 {
                Some((tile_index - 1) as usize)
            } else {
                None
            }),
    {
        if self.width > 0 && tile_index % self.width != 0 {
            assert(tile_index > 0) by {
                assert(0int % (self.width as int) == 0);
            }
            Some(tile_index - 1)
        } else {
            None
        }
    }

    /// The tile one column right, unless `tile_index` is in the last column,
    /// the grid has no columns, or no larger index exists.
    pub fn tile_index_right(&self, tile_index: usize) -> (right: Option<usize>)
        ensures
            right == (if self.width > 0 && tile_index < usize::MAX && (tile_index + 1) % (
            self.width as int) != 0 {
                Some((tile_index + 1) as usize)
            } else {
                None
            }),
    {
        if self.width == 0 || tile_index == usize::MAX {
            return None;
        }
        if tile_index % self.width != self.width - 1 {
            proof {
                lemma_next_column(tile_index as int, self.width as int);
            }
            Some(tile_index + 1)
        } else {
            proof {
                lemma_next_column(tile_index as int, self.width as int);
            }
            None
        }
    }

    /// Column and row of the tile at `tile_index`.
    pub fn pos_by_index(&self, tile_index: usize) -> (p: TilePos)
        requires
            self.width > 0,
        ensures
            p.x == tile_index % self.width,
            p.y == tile_index / self.width,
    {
        TilePos { x: tile_index % self.width, y: tile_index / self.width }
    }
}

/// Stepping one tile to the right wraps to column 0 exactly from the last
/// column.
proof fn lemma_next_column(i: int, w: int)
    requires
        0 <= i,
        0 < w,
    ensures
        (i + 1) % w == 0 <==> i % w == w - 1,
{
    vstd::arithmetic::div_mod::lemma_fundamental_div_mod(i, w);
    let q = i / w;
    let r = i % w;
    if r == w - 1 {
        assert(i + 1 == (q + 1) * w + 0) by (nonlinear_arith)
            requires
                i == w * q + r,
                r == w - 1,
        ;
        vstd::arithmetic::div_mod::lemma_fundamental_div_mod_converse(i + 1, w, q + 1, 0);
    } else {
        assert(i + 1 == q * w + (r + 1)) by (nonlinear_arith)
            requires
                i == w * q + r,
        ;
        vstd::arithmetic::div_mod::lemma_fundamental_div_mod_converse(i + 1, w, q, r + 1);
    }
}

} // verus!
