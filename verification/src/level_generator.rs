//! Random levels: rooms scattered over an empty grid and joined by
//! corridors until every room can be reached from the first.

use std::collections::HashMap;
use vstd::prelude::*;
use vstd::std_specs::iter::IteratorSpec;
use crate::level::{Level, Room, Tile};

verus! {

/// The narrowest room that is placed at random, in tiles.
pub const ROOM_MIN_WIDTH: usize = 5;

/// The lowest room that is placed at random, in tiles.
pub const ROOM_MIN_HEIGHT: usize = 5;

/// The widest room that is placed at random, in tiles.
pub const ROOM_MAX_WIDTH: usize = 15;

/// The highest room that is placed at random, in tiles.
pub const ROOM_MAX_HEIGHT: usize = 15;

/// The character of a tile on which nothing has been built yet.
pub const BLANK: char = ' ';

/// The character of walkable ground.
pub const GROUND: char = 'c';

/// The character of a room's wall.
pub const WALL: char = 'a';

/// The character of a corridor's wall.
pub const CORRIDOR_WALL: char = 'b';

/// Whether the tile in column `x` and row `y` belongs to the room.
pub open spec fn in_room(room: Room, x: int, y: int) -> bool {
    room.x <= x < room.x + room.w && room.y <= y < room.y + room.h
}

/// Whether the tile in column `x` and row `y` lies on the room's rim.
pub open spec fn on_rim(room: Room, x: int, y: int) -> bool {
    x == room.x || y == room.y || x == room.x + room.w - 1 || y == room.y + room.h - 1
}

/// The character that a freshly built room puts on one of its tiles: wall
/// on the rim, ground within.
pub open spec fn room_char(room: Room, x: int, y: int) -> char {
    if on_rim(room, x, y) {
        WALL
    } else {
        GROUND
    }
}

/// Whether the room lies within the grid.
pub open spec fn room_in_grid(room: Room, lvl: Level) -> bool {
    room.x + room.w <= lvl.width && room.y + room.h <= lvl.height
}

/// Whether the room can be built: it lies within the grid and on blank
/// tiles only.
pub open spec fn room_fits(room: Room, lvl: Level) -> bool {
    &&& room_in_grid(room, lvl)
    &&& forall|x: int, y: int|
        in_room(room, x, y) ==> (#[trigger] lvl.tiles@[y * lvl.width + x]).ch == BLANK
}

/// The tiles once the room has been built on them.
pub open spec fn tiles_with_room(lvl: Level, room: Room) -> Seq<Tile> {
    Seq::new(
        lvl.tiles@.len(),
        |k: int|
            if in_room(room, k % (lvl.width as int), k / (lvl.width as int)) {
                Tile::spec_from_char(
                    room_char(room, k % (lvl.width as int), k / (lvl.width as int)),
                )
            } else {
                lvl.tiles@[k]
            },
    )
}

/// Column `x` of row `y` is tile `y * width + x`, and no other cell is.
pub proof fn lemma_cell_index(x: int, y: int, width: int, height: int)
    requires
        0 <= x < width,
        0 <= y < height,
    ensures
        0 <= y * width + x < width * height,
        (y * width + x) % width == x,
        (y * width + x) / width == y,
{
    vstd::arithmetic::div_mod::lemma_fundamental_div_mod_converse(y * width + x, width, y, x);
    assert(y * width + x < width * height) by (nonlinear_arith)
        requires
            0 <= x < width,
            0 <= y < height,
    ;
    assert(0 <= y * width) by (nonlinear_arith)
        requires
            0 <= y,
            0 < width,
    ;
}

/// Every tile index of a grid names a cell of it.
pub proof fn lemma_index_cell(k: int, width: int, height: int)
    requires
        0 <= k < width * height,
        0 < width,
    ensures
        0 <= k % width < width,
        0 <= k / width < height,
        (k / width) * width + k % width == k,
{
    vstd::arithmetic::div_mod::lemma_fundamental_div_mod(k, width);
    vstd::arithmetic::div_mod::lemma_mod_bound(k, width);
    let q = k / width;
    assert(q * width == width * q) by (nonlinear_arith);
    if q >= height {
        assert(width * q >= width * height) by (nonlinear_arith)
            requires
                q >= height,
                0 < width,
        ;
    }
    if q < 0 {
        assert(width * q <= -width) by (nonlinear_arith)
            requires
                q <= -1,
                0 < width,
        ;
    }
}

/// Draws a number between `low` and `high`, both included.
///
/// Calls `fastrand::usize` on the inclusive range, which returns some value
/// of that range and panics only on an empty one.
#[verifier::external_body]
fn random_between(low: usize, high: usize) -> (r: usize)
    requires
        low <= high,
    ensures
        low <= r <= high,
{
    fastrand::usize(low..=high)
}

/// Computes the index of the tile in column `x` and row `y`.
fn cell(lvl: &Level, x: usize, y: usize) -> (k: usize)
    requires
        lvl.wf(),
        x < lvl.width,
        y < lvl.height,
    ensures
        k == y * lvl.width + x,
        k < lvl.tiles@.len(),
        k % lvl.width == x,
        k / lvl.width == y,
{
    let n = lvl.tiles.len();
    proof {
        lemma_cell_index(x as int, y as int, lvl.width as int, lvl.height as int);
        assert(0 <= y * lvl.width) by (nonlinear_arith)
            requires
                0 <= y,
                0 <= lvl.width,
        ;
    }
    y * lvl.width + x
}

/// Tests whether the room can be built.
fn fits(lvl: &Level, room: &Room) -> (ok: bool)
    requires
        lvl.wf(),
    ensures
        ok == room_fits(*room, *lvl),
{
    let right = match room.x.checked_add(room.w) {
        Some(right) => right,
        None => {
            return false;
        },
    };
    let bottom = match room.y.checked_add(room.h) {
        Some(bottom) => bottom,
        None => {
            return false;
        },
    };
    if right > lvl.width || bottom > lvl.height {
        return false;
    }
    let mut x: usize = room.x;
    while x < right
        invariant
            lvl.wf(),
            room.x <= x <= right == room.x + room.w <= lvl.width,
            bottom == room.y + room.h <= lvl.height,
            forall|cx: int, cy: int|
                room.x <= cx < x && room.y <= cy < bottom ==> (#[trigger] lvl.tiles@[cy * lvl.width
                    + cx]).ch == BLANK,
        decreases right - x,
    {
        let mut y: usize = room.y;
        while y < bottom
            invariant
                lvl.wf(),
                room.x <= x < right == room.x + room.w <= lvl.width,
                room.y <= y <= bottom == room.y + room.h <= lvl.height,
                forall|cx: int, cy: int|
                    room.x <= cx < x && room.y <= cy < bottom ==> (#[trigger] lvl.tiles@[cy
                        * lvl.width + cx]).ch == BLANK,
                forall|cy: int|
                    room.y <= cy < y ==> (#[trigger] lvl.tiles@[cy * lvl.width + x]).ch == BLANK,
            decreases bottom - y,
        {
            let k = cell(lvl, x, y);
            if lvl.tiles[k].ch != BLANK {
                assert(in_room(*room, x as int, y as int));
                return false;
            }
            y = y + 1;
        }
        x = x + 1;
    }
    true
}

/// Builds the room on the level if it lies within the grid and on blank
/// tiles only: its rim becomes wall, its inside ground, and it joins the
/// list of rooms.  Otherwise nothing changes.
pub fn add_room(level: &mut Level, room: Room) -> (built: bool)
    requires
        old(level).wf(),
    ensures
        built == room_fits(room, *old(level)),
        built ==> {
            &&& final(level).width == old(level).width
            &&& final(level).height == old(level).height
            &&& final(level).tiles@ == tiles_with_room(*old(level), room)
            &&& final(level).rooms@ == old(level).rooms@.push(room)
        },
        !built ==> *final(level) == *old(level),
        final(level).wf(),
{
    if !fits(level, &room) {
        return false;
    }
    let right = room.x + room.w;
    let bottom = room.y + room.h;
    let mut x: usize = room.x;
    while x < right
        invariant
            level.wf(),
            level.width == old(level).width,
            level.height == old(level).height,
            level.rooms == old(level).rooms,
            level.tiles@.len() == old(level).tiles@.len(),
            room.x <= x <= right == room.x + room.w <= level.width,
            bottom == room.y + room.h <= level.height,
            forall|k: int|
                0 <= k < level.tiles@.len() ==> #[trigger] level.tiles@[k] == (if in_room(
                    room,
                    k % (level.width as int),
                    k / (level.width as int),
                ) && k % (level.width as int) < x {
                    tiles_with_room(*old(level), room)[k]
                } else {
                    old(level).tiles@[k]
                }),
        decreases right - x,
    {
        let mut y: usize = room.y;
        while y < bottom
            invariant
                level.wf(),
                level.width == old(level).width,
                level.height == old(level).height,
                level.rooms == old(level).rooms,
                level.tiles@.len() == old(level).tiles@.len(),
                room.x <= x < right == room.x + room.w <= level.width,
                room.y <= y <= bottom == room.y + room.h <= level.height,
                forall|k: int|
                    0 <= k < level.tiles@.len() ==> #[trigger] level.tiles@[k] == (if in_room(
                        room,
                        k % (level.width as int),
                        k / (level.width as int),
                    ) && (k % (level.width as int) < x || (k % (level.width as int) == x && k / (
                    level.width as int) < y)) {
                        tiles_with_room(*old(level), room)[k]
                    } else {
                        old(level).tiles@[k]
                    }),
            decreases bottom - y,
        {
            let ch: char = if y == room.y || x == room.x || x == right - 1 || y == bottom - 1 {
                WALL
            } else {
                GROUND
            };
            let k = cell(level, x, y);
            let ghost before = level.tiles@;
            level.tiles[k] = Tile::from_char(ch);
            assert forall|i: int| 0 <= i < level.tiles@.len() implies #[trigger] level.tiles@[i]
                == (if in_room(room, i % (level.width as int), i / (level.width as int)) && (i % (
            level.width as int) < x || (i % (level.width as int) == x && i / (level.width as int)
                < y + 1)) {
                tiles_with_room(*old(level), room)[i]
            } else {
                old(level).tiles@[i]
            }) by {
                lemma_index_cell(i, level.width as int, level.height as int);
                if i != k {
                    assert(level.tiles@[i] == before[i]);
                }
            }
            y = y + 1;
        }
        x = x + 1;
    }
    assert(level.tiles@ =~= tiles_with_room(*old(level), room));
    level.rooms.push(room);
    true
}

/// Draws a room of random place and size and builds it if it can be built.
pub fn add_random_room(level: &mut Level) -> (built: bool)
    requires
        old(level).wf(),
    ensures
        exists|room: Room| #[trigger]
            may_be_drawn(room, *old(level)) && attempt_outcome(
                *old(level),
                *final(level),
                room,
                built,
            ),
        final(level).wf(),
{
    let room = Room {
        x: random_between(0, level.width),
        y: random_between(0, level.height),
        w: random_between(ROOM_MIN_WIDTH, ROOM_MAX_WIDTH),
        h: random_between(ROOM_MIN_HEIGHT, ROOM_MAX_HEIGHT),
        connections: HashMap::new(),
    };
    let ghost drawn = room;
    let built = add_room(level, room);
    assert(may_be_drawn(drawn, *old(level)) && attempt_outcome(
        *old(level),
        *level,
        drawn,
        built,
    ));
    built
}

/// Whether `room` is one that may be drawn for the level: its corner lies
/// anywhere from the level's first column and row to just past its last,
/// its size is within the limits, and no corridor leads from it.
pub open spec fn may_be_drawn(room: Room, lvl: Level) -> bool {
    &&& room.x <= lvl.width
    &&& room.y <= lvl.height
    &&& ROOM_MIN_WIDTH <= room.w <= ROOM_MAX_WIDTH
    &&& ROOM_MIN_HEIGHT <= room.h <= ROOM_MAX_HEIGHT
    &&& room.connections@.len() == 0
}

/// Whether `after` and `built` are what comes of trying to build `room` on
/// the level `before`: the room is built exactly if it lies within the grid
/// and on blank tiles only; a room that is built is drawn onto the tiles
/// and put behind the other rooms, and one that is not leaves the level as
/// it was.
pub open spec fn attempt_outcome(before: Level, after: Level, room: Room, built: bool) -> bool {
    &&& built == room_fits(room, before)
    &&& built ==> {
        &&& after.width == before.width
        &&& after.height == before.height
        &&& after.tiles@ == tiles_with_room(before, room)
        &&& after.rooms@ == before.rooms@.push(room)
    }
    &&& !built ==> after == before
}

/// Whether room `a` has a corridor to room `b`.
pub open spec fn linked(rooms: Seq<Room>, a: int, b: int) -> bool {
    0 <= b <= usize::MAX && rooms[a].connections@.contains_key(b as usize)
}

/// Whether the room has area and lies within the grid, so that its centre
/// is a tile of the grid.
pub open spec fn room_ok(room: Room, lvl: Level) -> bool {
    room.w >= 1 && room.h >= 1 && room_in_grid(room, lvl)
}

/// Whether every room has area and lies within the grid, and corridors lead
/// to rooms of the level only.
pub open spec fn rooms_ok(lvl: Level) -> bool {
    forall|i: int|
        0 <= i < lvl.rooms@.len() ==> room_ok(#[trigger] lvl.rooms@[i], lvl) && forall|k: usize|
            lvl.rooms@[i].connections@.contains_key(k) ==> k < lvl.rooms@.len()
}

/// Whether the cell `(x, y)` is the cell `(cx, cy)` or one of its eight
/// neighbours.
pub open spec fn near(x: int, y: int, cx: int, cy: int) -> bool {
    cx - 1 <= x <= cx + 1 && cy - 1 <= y <= cy + 1
}

/// The tiles after every blank tile at or next to `(x, y)` has become `ch`.
pub open spec fn tiles_surrounded(tiles: Seq<Tile>, width: int, x: int, y: int, ch: char) -> Seq<
    Tile,
> {
    Seq::new(
        tiles.len(),
        |k: int|
            if tiles[k].ch == BLANK && near(k % width, k / width, x, y) {
                Tile::spec_from_char(ch)
            } else {
                tiles[k]
            },
    )
}

/// The tiles after a corridor has been dug at `(x, y)`: the tile itself
/// becomes `ch`, and the blank tiles around it become `wall`.
pub open spec fn tiles_dug(tiles: Seq<Tile>, width: int, x: int, y: int, ch: char, wall: char) -> Seq<
    Tile,
> {
    tiles_surrounded(tiles.update(y * width + x, Tile::spec_from_char(ch)), width, x, y, wall)
}

/// One step from `from` toward `to`.
pub open spec fn toward(from: int, to: int) -> int {
    if from < to {
        from + 1
    } else {
        from - 1
    }
}

/// The number of steps between `from` and `to`.
pub open spec fn span(from: int, to: int) -> int {
    if from < to {
        to - from
    } else {
        from - to
    }
}

/// The tiles after a corridor has been dug from `(x, y)` up to, but not
/// into, `(ex, ey)`: first along the row, then along the column.
pub open spec fn tiles_with_corridor(
    tiles: Seq<Tile>,
    width: int,
    x: int,
    y: int,
    ex: int,
    ey: int,
    ch: char,
    wall: char,
) -> Seq<Tile>
    decreases span(x, ex) + span(y, ey),
{
    if x != ex {
        tiles_with_corridor(
            tiles_dug(tiles, width, x, y, ch, wall),
            width,
            toward(x, ex),
            y,
            ex,
            ey,
            ch,
            wall,
        )
    } else if y != ey {
        tiles_with_corridor(
            tiles_dug(tiles, width, x, y, ch, wall),
            width,
            x,
            toward(y, ey),
            ex,
            ey,
            ch,
            wall,
        )
    } else {
        tiles
    }
}

impl Room {
    /// The column of the room's central tile.
    pub open spec fn spec_center_x(&self) -> int {
        self.x + self.w / 2
    }

    /// The row of the room's central tile.
    pub open spec fn spec_center_y(&self) -> int {
        self.y + self.h / 2
    }
}

/// Computes the room's central tile.
fn center(room: &Room, lvl: &Level) -> (c: (usize, usize))
    requires
        room_ok(*room, *lvl),
    ensures
        c.0 == room.spec_center_x(),
        c.1 == room.spec_center_y(),
        c.0 < lvl.width,
        c.1 < lvl.height,
{
    (room.x + room.w / 2, room.y + room.h / 2)
}

/// Turns every blank tile at or next to `(x, y)` into `ch`.
fn surround(level: &mut Level, x: usize, y: usize, ch: char)
    requires
        old(level).wf(),
        x < old(level).width,
        y < old(level).height,
    ensures
        final(level).tiles@ == tiles_surrounded(
            old(level).tiles@,
            old(level).width as int,
            x as int,
            y as int,
            ch,
        ),
        final(level).width == old(level).width,
        final(level).height == old(level).height,
        final(level).rooms == old(level).rooms,
        final(level).wf(),
{
    let xstart = if x > 0 {
        x - 1
    } else {
        x
    };
    let ystart = if y > 0 {
        y - 1
    } else {
        y
    };
    let xend = if x < level.width - 1 {
        x + 1
    } else {
        x
    };
    let yend = if y < level.height - 1 {
        y + 1
    } else {
        y
    };
    let ghost goal = tiles_surrounded(old(level).tiles@, old(level).width as int, x as int, y as int, ch);
    let mut cx: usize = xstart;
    while cx <= xend
        invariant
            level.wf(),
            level.width == old(level).width,
            level.height == old(level).height,
            level.rooms == old(level).rooms,
            level.tiles@.len() == old(level).tiles@.len(),
            xstart <= cx <= xend + 1 <= level.width,
            ystart <= yend < level.height,
            x as int - 1 <= xstart <= x <= xend <= x + 1,
            y as int - 1 <= ystart <= y <= yend <= y + 1,
            xstart == 0 || xstart == x - 1,
            ystart == 0 || ystart == y - 1,
            xend == level.width - 1 || xend == x + 1,
            yend == level.height - 1 || yend == y + 1,
            goal == tiles_surrounded(old(level).tiles@, old(level).width as int, x as int, y as int, ch),
            forall|k: int|
                0 <= k < level.tiles@.len() ==> #[trigger] level.tiles@[k] == (if k % (
                level.width as int) < cx {
                    goal[k]
                } else {
                    old(level).tiles@[k]
                }),
        decreases xend + 1 - cx,
    {
        let mut cy: usize = ystart;
        while cy <= yend
            invariant
                level.wf(),
                level.width == old(level).width,
                level.height == old(level).height,
                level.rooms == old(level).rooms,
                level.tiles@.len() == old(level).tiles@.len(),
                xstart <= cx <= xend < level.width,
                ystart <= cy <= yend + 1 <= level.height,
                x as int - 1 <= xstart <= x <= xend <= x + 1,
                y as int - 1 <= ystart <= y <= yend <= y + 1,
                xstart == 0 || xstart == x - 1,
                ystart == 0 || ystart == y - 1,
                xend == level.width - 1 || xend == x + 1,
                yend == level.height - 1 || yend == y + 1,
                goal == tiles_surrounded(
                    old(level).tiles@,
                    old(level).width as int,
                    x as int,
                    y as int,
                    ch,
                ),
                forall|k: int|
                    0 <= k < level.tiles@.len() ==> #[trigger] level.tiles@[k] == (if k % (
                    level.width as int) < cx || (k % (level.width as int) == cx && (k / (
                    level.width as int) < cy || !near(
                        k % (level.width as int),
                        k / (level.width as int),
                        x as int,
                        y as int,
                    ))) {
                        goal[k]
                    } else {
                        old(level).tiles@[k]
                    }),
            decreases yend + 1 - cy,
        {
            let k = cell(level, cx, cy);
            let ghost before = level.tiles@;
            if level.tiles[k].ch == BLANK {
                level.tiles[k] = Tile::from_char(ch);
            }
            assert forall|i: int| 0 <= i < level.tiles@.len() implies #[trigger] level.tiles@[i]
                == (if i % (level.width as int) < cx || (i % (level.width as int) == cx && (i / (
            level.width as int) < cy + 1 || !near(
                i % (level.width as int),
                i / (level.width as int),
                x as int,
                y as int,
            ))) {
                goal[i]
            } else {
                old(level).tiles@[i]
            }) by {
                lemma_index_cell(i, level.width as int, level.height as int);
                if i != k {
                    assert(level.tiles@[i] == before[i]);
                }
            }
            cy = cy + 1;
        }
        assert forall|i: int| 0 <= i < level.tiles@.len() implies #[trigger] level.tiles@[i] == (if i
            % (level.width as int) < cx + 1 {
            goal[i]
        } else {
            old(level).tiles@[i]
        }) by {
            lemma_index_cell(i, level.width as int, level.height as int);
        }
        cx = cx + 1;
    }
    assert forall|i: int| 0 <= i < level.tiles@.len() implies level.tiles@[i] == goal[i] by {
        lemma_index_cell(i, level.width as int, level.height as int);
    }
    assert(level.tiles@ =~= goal);
}

/// Digs the corridor tile at `(x, y)`.
fn dig(level: &mut Level, x: usize, y: usize, ch: char, ch_wall: char)
    requires
        old(level).wf(),
        x < old(level).width,
        y < old(level).height,
    ensures
        final(level).tiles@ == tiles_dug(
            old(level).tiles@,
            old(level).width as int,
            x as int,
            y as int,
            ch,
            ch_wall,
        ),
        final(level).width == old(level).width,
        final(level).height == old(level).height,
        final(level).rooms == old(level).rooms,
        final(level).wf(),
{
    let k = cell(level, x, y);
    level.tiles[k] = Tile::from_char(ch);
    surround(level, x, y, ch_wall);
}

/// Records a corridor between rooms `i` and `j`.
fn set_rooms_connected(level: &mut Level, i: usize, j: usize)
    requires
        i < old(level).rooms@.len(),
        j < old(level).rooms@.len(),
        old(level).wf(),
        rooms_ok(*old(level)),
    ensures
        rooms_linked(old(level).rooms@, final(level).rooms@, i as int, j as int),
        final(level).width == old(level).width,
        final(level).height == old(level).height,
        final(level).tiles == old(level).tiles,
        final(level).wf(),
        rooms_ok(*final(level)),
{
    broadcast use vstd::std_specs::hash::group_hash_axioms;

    level.rooms[i].connections.insert(j, true);
    level.rooms[j].connections.insert(i, true);
    assert forall|r: int| 0 <= r < level.rooms@.len() implies room_ok(
        #[trigger] level.rooms@[r],
        *level,
    ) && forall|k: usize| level.rooms@[r].connections@.contains_key(k) ==> k < level.rooms@.len() by {
        assert(room_ok(old(level).rooms@[r], *old(level)));
    }
}

/// Whether `after` is `before` with a corridor recorded between rooms `i`
/// and `j`: each of the two now names the other, and nothing else differs.
pub open spec fn rooms_linked(before: Seq<Room>, after: Seq<Room>, i: int, j: int) -> bool {
    &&& after.len() == before.len()
    &&& forall|r: int|
        0 <= r < before.len() ==> {
            &&& (#[trigger] after[r]).x == before[r].x
            &&& after[r].y == before[r].y
            &&& after[r].w == before[r].w
            &&& after[r].h == before[r].h
            &&& forall|k: usize|
                after[r].connections@.contains_key(k) <==> (before[r].connections@.contains_key(k)
                    || (r == i && k == j) || (r == j && k == i))
        }
}

/// Joins rooms `i` and `j` by a corridor of `ch` walled with `ch_wall`,
/// dug from the centre of `i` along its row and then along the column of
/// the centre of `j`, unless a corridor between the two is on record.
pub fn connect_rooms(level: &mut Level, i: usize, j: usize, ch: char, ch_wall: char)
    requires
        i < old(level).rooms@.len(),
        j < old(level).rooms@.len(),
        old(level).wf(),
        rooms_ok(*old(level)),
    ensures
        linked(old(level).rooms@, i as int, j as int) ==> *final(level) == *old(level),
        !linked(old(level).rooms@, i as int, j as int) ==> {
            &&& final(level).tiles@ == tiles_with_corridor(
                old(level).tiles@,
                old(level).width as int,
                old(level).rooms@[i as int].spec_center_x(),
                old(level).rooms@[i as int].spec_center_y(),
                old(level).rooms@[j as int].spec_center_x(),
                old(level).rooms@[j as int].spec_center_y(),
                ch,
                ch_wall,
            )
            &&& rooms_linked(old(level).rooms@, final(level).rooms@, i as int, j as int)
        },
        final(level).width == old(level).width,
        final(level).height == old(level).height,
        final(level).wf(),
        rooms_ok(*final(level)),
{
    broadcast use vstd::std_specs::hash::group_hash_axioms;

    if level.rooms[i].connections.contains_key(&j) {
        return ;
    }
    assert(room_ok(level.rooms@[i as int], *level));
    assert(room_ok(level.rooms@[j as int], *level));
    let (start_x, start_y) = center(&level.rooms[i], level);
    let (end_x, end_y) = center(&level.rooms[j], level);
    let mut x = start_x;
    let mut y = start_y;
    let ghost goal = tiles_with_corridor(
        old(level).tiles@,
        old(level).width as int,
        start_x as int,
        start_y as int,
        end_x as int,
        end_y as int,
        ch,
        ch_wall,
    );
    while x != end_x
        invariant
            level.wf(),
            level.width == old(level).width,
            level.height == old(level).height,
            level.rooms == old(level).rooms,
            x < level.width,
            end_x < level.width,
            y == start_y < level.height,
            goal == tiles_with_corridor(
                level.tiles@,
                level.width as int,
                x as int,
                y as int,
                end_x as int,
                end_y as int,
                ch,
                ch_wall,
            ),
        decreases span(x as int, end_x as int),
    {
        dig(level, x, y, ch, ch_wall);
        if x < end_x {
            x += 1;
        } else {
            x -= 1;
        }
    }
    while y != end_y
        invariant
            level.wf(),
            level.width == old(level).width,
            level.height == old(level).height,
            level.rooms == old(level).rooms,
            x == end_x < level.width,
            y < level.height,
            end_y < level.height,
            goal == tiles_with_corridor(
                level.tiles@,
                level.width as int,
                x as int,
                y as int,
                end_x as int,
                end_y as int,
                ch,
                ch_wall,
            ),
        decreases span(y as int, end_y as int),
    {
        dig(level, x, y, ch, ch_wall);
        if y < end_y {
            y += 1;
        } else {
            y -= 1;
        }
    }
    set_rooms_connected(level, i, j)
}

/// A chain of corridors: each room of the route has one to the next.
pub open spec fn is_route(rooms: Seq<Room>, route: Seq<int>) -> bool {
    &&& route.len() >= 2
    &&& forall|k: int|
        0 <= k < route.len() - 1 ==> 0 <= #[trigger] route[k] < rooms.len() && linked(
            rooms,
            route[k],
            route[k + 1],
        )
}

/// Whether corridors lead from room `i` to room `j`, directly or through
/// other rooms.
pub open spec fn joined(rooms: Seq<Room>, i: int, j: int) -> bool {
    exists|route: Seq<int>| #[trigger] is_route(rooms, route) && route.first() == i && route.last() == j
}

/// Whether the search for `j` is through with room `c`: none of its
/// corridors leads to `j`, and all lead to rooms that have been looked at.
pub open spec fn explored(rooms: Seq<Room>, c: int, j: int, checked: Map<usize, bool>) -> bool {
    forall|k: usize| #[trigger]
        rooms[c].connections@.contains_key(k) ==> k != j && checked.contains_key(k)
}

/// The rooms that have been looked at are rooms of the level, so there are
/// no more of them than the level has rooms.
proof fn lemma_checked_bounded(checked: Map<usize, bool>, n: usize)
    requires
        checked.dom().finite(),
        forall|k: usize| checked.contains_key(k) ==> k < n,
    ensures
        checked.len() <= n,
{
    vstd::set_lib::range_set_properties::<usize>(0, n);
    vstd::set_lib::lemma_len_subset(checked.dom(), Set::<usize>::range(0, n));
}

/// Searches depth first for a chain of corridors from room `i` to room
/// `j`, skipping the rooms in `checked` and adding to it those it looks at.
/// `pending` holds the rooms whose own search is still under way.
fn are_rooms_connected(
    level: &Level,
    i: usize,
    j: usize,
    checked: &mut HashMap<usize, bool>,
    Ghost(pending): Ghost<Set<usize>>,
) -> (found: bool)
    requires
        i < level.rooms@.len(),
        rooms_ok(*level),
        forall|k: usize| old(checked)@.contains_key(k) ==> k < level.rooms@.len(),
        forall|c: usize| #[trigger]
            old(checked)@.contains_key(c) && !pending.contains(c) && c != i ==> explored(
                level.rooms@,
                c as int,
                j as int,
                old(checked)@,
            ),
    ensures
        forall|k: usize| final(checked)@.contains_key(k) ==> k < level.rooms@.len(),
        forall|k: usize| old(checked)@.contains_key(k) ==> final(checked)@.contains_key(k),
        found ==> joined(level.rooms@, i as int, j as int),
        !found ==> explored(level.rooms@, i as int, j as int, final(checked)@),
        !found ==> forall|c: usize| #[trigger]
            final(checked)@.contains_key(c) && !pending.contains(c) ==> explored(
                level.rooms@,
                c as int,
                j as int,
                final(checked)@,
            ),
    decreases level.rooms@.len() - old(checked)@.len(),
{
    broadcast use vstd::std_specs::hash::group_hash_axioms;

    let connections = &level.rooms[i].connections;
    let ghost keys = vstd::std_specs::hash::spec_keys_iter(connections).remaining();
    for key in it: connections.keys()
        invariant
            i < level.rooms@.len(),
            rooms_ok(*level),
            connections == level.rooms@[i as int].connections,
            it.seq() == keys,
            keys.unref().to_set() == connections@.dom(),
            forall|k: usize| checked@.contains_key(k) ==> k < level.rooms@.len(),
            forall|k: usize| old(checked)@.contains_key(k) ==> checked@.contains_key(k),
            forall|c: usize| #[trigger]
                checked@.contains_key(c) && !pending.contains(c) && c != i ==> explored(
                    level.rooms@,
                    c as int,
                    j as int,
                    checked@,
                ),
            forall|n: int|
                0 <= n < it.index() ==> *(#[trigger] keys[n]) != j && checked@.contains_key(
                    *keys[n],
                ),
    {
        proof {
            assert(keys.unref()[it.index()] == *key);
            assert(keys.unref().to_set().contains(*key));
            assert(connections@.contains_key(*key));
        }
        if *key == j {
            proof {
                let route = seq![i as int, j as int];
                assert(is_route(level.rooms@, route));
            }
            return true;
        }
        if !checked.contains_key(key) {
            let ghost before = checked@;
            checked.insert(*key, true);
            proof {
                lemma_checked_bounded(checked@, level.rooms.len());
                vstd::set_lib::lemma_len_subset(old(checked)@.dom(), before.dom());
            }
            if are_rooms_connected(level, *key, j, checked, Ghost(pending.insert(i))) {
                proof {
                    let rest = choose|route: Seq<int>|
                        #[trigger] is_route(level.rooms@, route) && route.first() == *key
                            && route.last() == j;
                    let route = seq![i as int] + rest;
                    assert(is_route(level.rooms@, route));
                }
                return true;
            }
        }
    }
    proof {
        assert forall|k: usize| #[trigger]
            level.rooms@[i as int].connections@.contains_key(k) implies k != j
            && checked@.contains_key(k) by {
            assert(keys.unref().to_set().contains(k));
            let n = choose|n: int| 0 <= n < keys.unref().len() && keys.unref()[n] == k;
            assert(*keys[n] == k);
        }
    }
    false
}

/// Tells whether corridors lead from room `i` to room `j`, directly or
/// through other rooms.
pub fn rooms_joined(level: &Level, i: usize, j: usize) -> (found: bool)
    requires
        i < level.rooms@.len(),
        rooms_ok(*level),
    ensures
        found == joined(level.rooms@, i as int, j as int),
{
    let mut checked: HashMap<usize, bool> = HashMap::new();
    let found = are_rooms_connected(level, i, j, &mut checked, Ghost(Set::empty()));
    proof {
        if !found && joined(level.rooms@, i as int, j as int) {
            let route = choose|route: Seq<int>|
                #[trigger] is_route(level.rooms@, route) && route.first() == i && route.last() == j;
            lemma_route_stays_explored(level.rooms@, route, i as int, j as int, checked@, route.len() - 1);
        }
    }
    found
}

/// When the search for `j` is through with room `i` and with every room it
/// looked at, no route from `i` ever reaches `j`.
proof fn lemma_route_stays_explored(
    rooms: Seq<Room>,
    route: Seq<int>,
    i: int,
    j: int,
    checked: Map<usize, bool>,
    upto: int,
)
    requires
        is_route(rooms, route),
        route.first() == i,
        1 <= upto < route.len(),
        0 <= j <= usize::MAX,
        explored(rooms, i, j, checked),
        forall|k: usize| checked.contains_key(k) ==> k < rooms.len(),
        forall|c: usize| #[trigger] checked.contains_key(c) ==> explored(rooms, c as int, j, checked),
    ensures
        route[upto] != j,
        0 <= route[upto] <= usize::MAX,
        checked.contains_key(route[upto] as usize),
    decreases upto,
{
    if upto == 1 {
        assert(linked(rooms, route[0], route[1]));
        assert(rooms[i].connections@.contains_key(route[1] as usize));
    } else {
        lemma_route_stays_explored(rooms, route, i, j, checked, upto - 1);
        assert(linked(rooms, route[upto - 1], route[upto]));
        let c = route[upto - 1] as usize;
        assert(explored(rooms, c as int, j, checked));
        assert(rooms[c as int].connections@.contains_key(route[upto] as usize));
    }
}

/// Whether the tile is one that generation draws: blank, wall, ground or
/// corridor wall, not yet seen.
pub open spec fn is_generated_tile(t: Tile) -> bool {
    ||| t == Tile::spec_from_char(BLANK)
    ||| t == Tile::spec_from_char(WALL)
    ||| t == Tile::spec_from_char(GROUND)
    ||| t == Tile::spec_from_char(CORRIDOR_WALL)
}

/// Whether all tiles are ones that generation draws.
pub open spec fn drawn(tiles: Seq<Tile>) -> bool {
    forall|k: int| 0 <= k < tiles.len() ==> is_generated_tile(#[trigger] tiles[k])
}

/// Whether every room stands as it was built: wall on its rim, ground
/// within.
pub open spec fn built(level: Level) -> bool {
    forall|r: int, x: int, y: int|
        0 <= r < level.rooms@.len() && #[trigger] in_room(level.rooms@[r], x, y)
            ==> level.tiles@[y * level.width + x] == Tile::spec_from_char(
            room_char(level.rooms@[r], x, y),
        )
}

/// Whether the inside of every room is ground.
pub open spec fn floored(level: Level) -> bool {
    forall|r: int, x: int, y: int|
        0 <= r < level.rooms@.len() && #[trigger] in_room(level.rooms@[r], x, y) && !on_rim(
            level.rooms@[r],
            x,
            y,
        ) ==> level.tiles@[y * level.width + x] == Tile::spec_from_char(GROUND)
}

/// Building a room on blank tiles leaves the rooms that stand untouched.
proof fn lemma_room_built(before: Level, after: Level, room: Room)
    requires
        before.wf(),
        rooms_ok(before),
        built(before),
        drawn(before.tiles@),
        room_fits(room, before),
        after.width == before.width,
        after.height == before.height,
        after.tiles@ == tiles_with_room(before, room),
        after.rooms@ == before.rooms@.push(room),
    ensures
        built(after),
        drawn(after.tiles@),
{
    let w = before.width as int;
    let h = before.height as int;
    assert forall|r: int, x: int, y: int|
        0 <= r < after.rooms@.len() && #[trigger] in_room(after.rooms@[r], x, y) implies after.tiles@[y
        * after.width + x] == Tile::spec_from_char(room_char(after.rooms@[r], x, y)) by {
        if r < before.rooms@.len() {
            assert(room_ok(before.rooms@[r], before));
            lemma_cell_index(x, y, w, h);
            assert(in_room(before.rooms@[r], x, y));
            if in_room(room, x, y) {
                assert(before.tiles@[y * w + x].ch == BLANK);
            }
        } else {
            lemma_cell_index(x, y, w, h);
        }
    }
}

/// Digging a corridor tile keeps the number of tiles, draws only tiles that
/// generation draws, and leaves ground as it is.
proof fn lemma_dug(tiles: Seq<Tile>, width: int, height: int, x: int, y: int)
    requires
        tiles.len() == width * height,
        0 <= x < width,
        0 <= y < height,
        drawn(tiles),
    ensures
        tiles_dug(tiles, width, x, y, GROUND, CORRIDOR_WALL).len() == tiles.len(),
        drawn(tiles_dug(tiles, width, x, y, GROUND, CORRIDOR_WALL)),
        forall|k: int|
            0 <= k < tiles.len() && tiles[k] == Tile::spec_from_char(GROUND) ==> (
            #[trigger] tiles_dug(tiles, width, x, y, GROUND, CORRIDOR_WALL)[k])
                == Tile::spec_from_char(GROUND),
{
    lemma_cell_index(x, y, width, height);
    let opened = tiles.update(y * width + x, Tile::spec_from_char(GROUND));
    assert forall|k: int| 0 <= k < opened.len() implies is_generated_tile(#[trigger] opened[k]) by {
        if k != y * width + x {
            assert(is_generated_tile(tiles[k]));
        }
    }
}

/// Digging a whole corridor keeps the number of tiles, draws only tiles
/// that generation draws, and leaves ground as it is.
proof fn lemma_corridor(tiles: Seq<Tile>, width: int, height: int, x: int, y: int, ex: int, ey: int)
    requires
        tiles.len() == width * height,
        0 <= x < width,
        0 <= y < height,
        0 <= ex < width,
        0 <= ey < height,
        drawn(tiles),
    ensures
        tiles_with_corridor(tiles, width, x, y, ex, ey, GROUND, CORRIDOR_WALL).len() == tiles.len(),
        drawn(tiles_with_corridor(tiles, width, x, y, ex, ey, GROUND, CORRIDOR_WALL)),
        forall|k: int|
            0 <= k < tiles.len() && tiles[k] == Tile::spec_from_char(GROUND) ==> (
            #[trigger] tiles_with_corridor(tiles, width, x, y, ex, ey, GROUND, CORRIDOR_WALL)[k])
                == Tile::spec_from_char(GROUND),
    decreases span(x, ex) + span(y, ey),
{
    if x != ex {
        lemma_dug(tiles, width, height, x, y);
        let next = tiles_dug(tiles, width, x, y, GROUND, CORRIDOR_WALL);
        lemma_corridor(next, width, height, toward(x, ex), y, ex, ey);
        assert forall|k: int|
            0 <= k < tiles.len() && tiles[k] == Tile::spec_from_char(GROUND) implies (
        #[trigger] tiles_with_corridor(tiles, width, x, y, ex, ey, GROUND, CORRIDOR_WALL)[k])
            == Tile::spec_from_char(GROUND) by {
            assert(next[k] == Tile::spec_from_char(GROUND));
        }
    } else if y != ey {
        lemma_dug(tiles, width, height, x, y);
        let next = tiles_dug(tiles, width, x, y, GROUND, CORRIDOR_WALL);
        lemma_corridor(next, width, height, x, toward(y, ey), ex, ey);
        assert forall|k: int|
            0 <= k < tiles.len() && tiles[k] == Tile::spec_from_char(GROUND) implies (
        #[trigger] tiles_with_corridor(tiles, width, x, y, ex, ey, GROUND, CORRIDOR_WALL)[k])
            == Tile::spec_from_char(GROUND) by {
            assert(next[k] == Tile::spec_from_char(GROUND));
        }
    }
}

/// A corridor between two rooms leaves the inside of every room ground.
proof fn lemma_connected_floored(before: Level, after: Level, i: int, j: int)
    requires
        before.wf(),
        rooms_ok(before),
        floored(before),
        drawn(before.tiles@),
        0 <= i < before.rooms@.len(),
        0 <= j < before.rooms@.len(),
        after.width == before.width,
        after.height == before.height,
        after == before || (after.tiles@ == tiles_with_corridor(
            before.tiles@,
            before.width as int,
            before.rooms@[i].spec_center_x(),
            before.rooms@[i].spec_center_y(),
            before.rooms@[j].spec_center_x(),
            before.rooms@[j].spec_center_y(),
            GROUND,
            CORRIDOR_WALL,
        ) && rooms_linked(before.rooms@, after.rooms@, i, j)),
    ensures
        floored(after),
        drawn(after.tiles@),
{
    if after != before {
        assert(room_ok(before.rooms@[i], before));
        assert(room_ok(before.rooms@[j], before));
        lemma_corridor(
            before.tiles@,
            before.width as int,
            before.height as int,
            before.rooms@[i].spec_center_x(),
            before.rooms@[i].spec_center_y(),
            before.rooms@[j].spec_center_x(),
            before.rooms@[j].spec_center_y(),
        );
        assert forall|r: int, x: int, y: int|
            0 <= r < after.rooms@.len() && #[trigger] in_room(after.rooms@[r], x, y) && !on_rim(
                after.rooms@[r],
                x,
                y,
            ) implies after.tiles@[y * after.width + x] == Tile::spec_from_char(GROUND) by {
            assert(room_ok(before.rooms@[r], before));
            assert(in_room(before.rooms@[r], x, y));
            lemma_cell_index(x, y, before.width as int, before.height as int);
        }
    }
}

/// The longest side a generated level may have.
pub const MAX_SIDE: usize = 0x7FFF_FFFF;

/// Squared distance between the centres of two rooms, in half tiles.
pub open spec fn center_dist_sq(a: Room, b: Room) -> int {
    let dx = (2 * a.x + a.w) - (2 * b.x + b.w);
    let dy = (2 * a.y + a.h) - (2 * b.y + b.h);
    dx * dx + dy * dy
}

/// Whether room `j` may be chosen as the room to connect room `i` to: it
/// is another room, and if `only_joined` it can be reached from room 0.
pub open spec fn eligible(rooms: Seq<Room>, i: int, j: int, only_joined: bool) -> bool {
    0 <= j < rooms.len() && j != i && (only_joined ==> joined(rooms, j, 0))
}

/// Whether `c` is the eligible room whose centre is closest to that of room
/// `i`, the first such room if several are equally close.
pub open spec fn is_closest(rooms: Seq<Room>, i: int, c: int, only_joined: bool) -> bool {
    &&& eligible(rooms, i, c, only_joined)
    &&& forall|j: int| #[trigger]
        eligible(rooms, i, j, only_joined) ==> center_dist_sq(rooms[i], rooms[c])
            <= center_dist_sq(rooms[i], rooms[j])
    &&& forall|j: int| #[trigger]
        eligible(rooms, i, j, only_joined) && j < c ==> center_dist_sq(rooms[i], rooms[c])
            < center_dist_sq(rooms[i], rooms[j])
}

/// Computes the squared distance between the centres of two rooms.
fn room_distance(a: &Room, b: &Room, lvl: &Level) -> (d: u128)
    requires
        room_ok(*a, *lvl),
        room_ok(*b, *lvl),
        lvl.width <= MAX_SIDE,
        lvl.height <= MAX_SIDE,
    ensures
        d == center_dist_sq(*a, *b),
{
    let ax: i128 = 2 * (a.x as i128) + a.w as i128;
    let ay: i128 = 2 * (a.y as i128) + a.h as i128;
    let bx: i128 = 2 * (b.x as i128) + b.w as i128;
    let by: i128 = 2 * (b.y as i128) + b.h as i128;
    let dx = ax - bx;
    let dy = ay - by;
    assert(0 <= dx * dx <= 0x1_0000_0000_0000_0000) by (nonlinear_arith)
        requires
            -0x1_0000_0000 <= dx <= 0x1_0000_0000,
    ;
    assert(0 <= dy * dy <= 0x1_0000_0000_0000_0000) by (nonlinear_arith)
        requires
            -0x1_0000_0000 <= dy <= 0x1_0000_0000,
    ;
    (dx * dx + dy * dy) as u128
}

/// Finds the room to connect room `i` to: the closest other room, or with
/// `only_joined` the closest other room that can be reached from room 0.
pub fn closest_room(level: &Level, i: usize, only_joined: bool) -> (closest: Option<usize>)
    requires
        i < level.rooms@.len(),
        level.wf(),
        rooms_ok(*level),
        level.width <= MAX_SIDE,
        level.height <= MAX_SIDE,
    ensures
        match closest {
            Some(c) => is_closest(level.rooms@, i as int, c as int, only_joined),
            None => forall|j: int| !eligible(level.rooms@, i as int, j, only_joined),
        },
{
    let n = level.rooms.len();
    let mut closest: Option<usize> = None;
    let mut closest_dist: u128 = 0;
    let mut j: usize = 0;
    while j < n
        invariant
            j <= n == level.rooms@.len(),
            i < n,
            level.wf(),
            rooms_ok(*level),
            level.width <= MAX_SIDE,
            level.height <= MAX_SIDE,
            match closest {
                Some(c) => {
                    &&& c < j
                    &&& eligible(level.rooms@, i as int, c as int, only_joined)
                    &&& closest_dist == center_dist_sq(level.rooms@[i as int], level.rooms@[c as int])
                    &&& forall|k: int|
                        0 <= k < j && #[trigger] eligible(level.rooms@, i as int, k, only_joined)
                            ==> closest_dist <= center_dist_sq(
                            level.rooms@[i as int],
                            level.rooms@[k],
                        )
                    &&& forall|k: int|
                        0 <= k < c && #[trigger] eligible(level.rooms@, i as int, k, only_joined)
                            ==> closest_dist < center_dist_sq(
                            level.rooms@[i as int],
                            level.rooms@[k],
                        )
                },
                None => forall|k: int|
                    0 <= k < j ==> !eligible(level.rooms@, i as int, k, only_joined),
            },
        decreases n - j,
    {
        if j != i && (!only_joined || rooms_joined(level, j, 0)) {
            assert(room_ok(level.rooms@[i as int], *level));
            assert(room_ok(level.rooms@[j as int], *level));
            let dist = room_distance(&level.rooms[i], &level.rooms[j], level);
            let nearer = match closest {
                Some(_) => closest_dist > dist,
                None => true,
            };
            if nearer {
                closest = Some(j);
                closest_dist = dist;
            }
        }
        j = j + 1;
    }
    closest
}

/// Corridors that were there before a new one was recorded are still
/// there, so every room that could be reached can still be reached.
pub proof fn lemma_joined_survives(before: Seq<Room>, after: Seq<Room>, i: int, j: int, a: int, b: int)
    requires
        rooms_linked(before, after, i, j),
        joined(before, a, b),
    ensures
        joined(after, a, b),
{
    let route = choose|route: Seq<int>|
        #[trigger] is_route(before, route) && route.first() == a && route.last() == b;
    assert(is_route(after, route)) by {
        assert forall|k: int| 0 <= k < route.len() - 1 implies 0 <= #[trigger] route[k] < after.len()
            && linked(after, route[k], route[k + 1]) by {
            assert(linked(before, route[k], route[k + 1]));
        }
    }
}

/// A room with a corridor to a room that can reach `b` can reach `b`.
pub proof fn lemma_joined_through(rooms: Seq<Room>, a: int, via: int, b: int)
    requires
        0 <= a < rooms.len(),
        linked(rooms, a, via),
        joined(rooms, via, b),
    ensures
        joined(rooms, a, b),
{
    let rest = choose|route: Seq<int>|
        #[trigger] is_route(rooms, route) && route.first() == via && route.last() == b;
    let route = seq![a] + rest;
    assert(is_route(rooms, route)) by {
        assert forall|k: int| 0 <= k < route.len() - 1 implies 0 <= #[trigger] route[k] < rooms.len()
            && linked(rooms, route[k], route[k + 1]) by {
            if k > 0 {
                assert(route[k] == rest[k - 1]);
                assert(route[k + 1] == rest[k]);
            }
        }
    }
}

/// A room with a corridor to `b` can reach `b`.
pub proof fn lemma_joined_directly(rooms: Seq<Room>, a: int, b: int)
    requires
        0 <= a < rooms.len(),
        linked(rooms, a, b),
    ensures
        joined(rooms, a, b),
{
    assert(is_route(rooms, seq![a, b]));
}

/// Whether the level is a finished random level: its tiles are blank,
/// wall, ground or corridor wall; its rooms have area, lie within the grid,
/// are within the size limits and have ground inside; and corridors lead
/// from every room to the first.
pub open spec fn generated(level: Level) -> bool {
    &&& level.wf()
    &&& rooms_ok(level)
    &&& drawn(level.tiles@)
    &&& floored(level)
    &&& forall|i: int|
        0 <= i < level.rooms@.len() ==> {
            &&& ROOM_MIN_WIDTH <= (#[trigger] level.rooms@[i]).w <= ROOM_MAX_WIDTH
            &&& ROOM_MIN_HEIGHT <= level.rooms@[i].h <= ROOM_MAX_HEIGHT
            &&& joined(level.rooms@, i, 0)
        }
}

/// Whether every room of the level has a size within the limits.
pub open spec fn rooms_sized(level: Level) -> bool {
    forall|i: int|
        0 <= i < level.rooms@.len() ==> {
            &&& ROOM_MIN_WIDTH <= (#[trigger] level.rooms@[i]).w <= ROOM_MAX_WIDTH
            &&& ROOM_MIN_HEIGHT <= level.rooms@[i].h <= ROOM_MAX_HEIGHT
        }
}

/// Makes a blank level of the given size.
pub fn blank_level(width: usize, height: usize) -> (level: Level)
    requires
        width * height <= usize::MAX,
    ensures
        level.width == width,
        level.height == height,
        level.rooms@.len() == 0,
        level.tiles@ == Seq::new((width * height) as nat, |k: int| Tile::spec_from_char(BLANK)),
        level.wf(),
{
    let mut tiles: Vec<Tile> = Vec::new();
    let count = width * height;
    let mut k: usize = 0;
    while k < count
        invariant
            k <= count,
            tiles@ == Seq::new(k as nat, |k: int| Tile::spec_from_char(BLANK)),
        decreases count - k,
    {
        tiles.push(Tile::from_char(BLANK));
        k = k + 1;
        assert(tiles@ =~= Seq::new(k as nat, |k: int| Tile::spec_from_char(BLANK)));
    }
    Level { width, height, tiles, rooms: Vec::new() }
}

/// Makes a random level: up to `rooms` rooms of random size at random free
/// places, found in at most `attempts` tries, each joined by a corridor to
/// the room nearest to it, and then, where that did not suffice, to the
/// nearest room that can be reached from the first.
pub fn generate_level(width: usize, height: usize, rooms: usize, attempts: usize) -> (level: Level)
    requires
        width * height <= usize::MAX,
        width <= MAX_SIDE,
        height <= MAX_SIDE,
    ensures
        level.width == width,
        level.height == height,
        level.rooms@.len() <= rooms,
        level.rooms@.len() <= attempts,
        generated(level),
{
    broadcast use vstd::std_specs::hash::group_hash_axioms;

    let mut level = blank_level(width, height);
    let mut tries: usize = 0;
    while level.rooms.len() < rooms && tries < attempts
        invariant
            level.width == width,
            level.height == height,
            level.wf(),
            rooms_ok(level),
            rooms_sized(level),
            built(level),
            drawn(level.tiles@),
            level.rooms@.len() <= rooms,
            level.rooms@.len() <= tries <= attempts,
            forall|i: int|
                0 <= i < level.rooms@.len() ==> (#[trigger] level.rooms@[i]).connections@.len() == 0,
        decreases attempts - tries,
    {
        let ghost before = level;
        let built = add_random_room(&mut level);
        proof {
            if built {
                let last = choose|room: Room| #[trigger]
                    may_be_drawn(room, before) && attempt_outcome(before, level, room, built);
                assert(level.rooms@.last() == last);
                assert(level.rooms@.drop_last() =~= before.rooms@);
                lemma_room_built(before, level, last);
                assert forall|i: int| 0 <= i < level.rooms@.len() implies room_ok(
                    #[trigger] level.rooms@[i],
                    level,
                ) && (forall|k: usize|
                    level.rooms@[i].connections@.contains_key(k) ==> k < level.rooms@.len())
                    && ROOM_MIN_WIDTH <= level.rooms@[i].w <= ROOM_MAX_WIDTH && ROOM_MIN_HEIGHT
                    <= level.rooms@[i].h <= ROOM_MAX_HEIGHT && level.rooms@[i].connections@.len()
                    == 0 by {
                    if i < before.rooms@.len() {
                        assert(level.rooms@[i] == level.rooms@.drop_last()[i]);
                        assert(room_ok(before.rooms@[i], before));
                    }
                    assert(level.rooms@[i].connections@.dom().finite());
                    assert(level.rooms@[i].connections@.dom().len() == 0);
                    assert forall|k: usize| !level.rooms@[i].connections@.contains_key(k) by {
                        if level.rooms@[i].connections@.dom().contains(k) {
                            vstd::set_lib::lemma_set_empty_equivalency_len(
                                level.rooms@[i].connections@.dom(),
                            );
                        }
                    }
                }
            }
        }
        tries = tries + 1;
    }
    let n = level.rooms.len();
    let mut i: usize = 0;
    while i < n
        invariant
            i <= n == level.rooms@.len(),
            level.width == width,
            level.height == height,
            width <= MAX_SIDE,
            height <= MAX_SIDE,
            level.wf(),
            rooms_ok(level),
            rooms_sized(level),
            floored(level),
            drawn(level.tiles@),
            forall|k: int| 0 <= k < i ==> linked(level.rooms@, k, k),
        decreases n - i,
    {
        let ghost start = level.rooms@;
        let ghost entry = level;
        level.rooms[i].connections.insert(i, true);
        proof {
            assert forall|r: int| 0 <= r < level.rooms@.len() implies room_ok(
                #[trigger] level.rooms@[r],
                level,
            ) && (forall|k: usize|
                level.rooms@[r].connections@.contains_key(k) ==> k < level.rooms@.len())
                && ROOM_MIN_WIDTH <= level.rooms@[r].w <= ROOM_MAX_WIDTH && ROOM_MIN_HEIGHT
                <= level.rooms@[r].h <= ROOM_MAX_HEIGHT by {
                assert(room_ok(start[r], level));
            }
            assert forall|k: int| 0 <= k < i + 1 implies linked(level.rooms@, k, k) by {
                if k < i {
                    assert(linked(start, k, k));
                }
            }
            assert forall|r: int, x: int, y: int|
                0 <= r < level.rooms@.len() && #[trigger] in_room(level.rooms@[r], x, y) && !on_rim(
                    level.rooms@[r],
                    x,
                    y,
                ) implies level.tiles@[y * level.width + x] == Tile::spec_from_char(GROUND) by {
                assert(in_room(entry.rooms@[r], x, y));
            }
        }
        match closest_room(&level, i, false) {
            Some(closest) => {
                let ghost mid = level.rooms@;
                let ghost whole = level;
                connect_rooms(&mut level, i, closest, GROUND, CORRIDOR_WALL);
                proof {
                    lemma_links_keep_sizes(mid, level.rooms@, i as int, closest as int, i + 1);
                    lemma_connected_floored(whole, level, i as int, closest as int);
                }
            },
            None => {},
        }
        i = i + 1;
    }
    let mut i: usize = 0;
    while i < n
        invariant
            i <= n == level.rooms@.len(),
            level.width == width,
            level.height == height,
            width <= MAX_SIDE,
            height <= MAX_SIDE,
            level.wf(),
            rooms_ok(level),
            rooms_sized(level),
            floored(level),
            drawn(level.tiles@),
            forall|k: int| 0 <= k < n ==> linked(level.rooms@, k, k),
            forall|k: int| 0 <= k < i ==> joined(level.rooms@, k, 0),
        decreases n - i,
    {
        if !rooms_joined(&level, i, 0) {
            proof {
                assert(linked(level.rooms@, 0, 0));
                lemma_joined_directly(level.rooms@, 0, 0);
                if i == 0 {
                    assert(false);
                }
                assert(eligible(level.rooms@, i as int, 0, true));
            }
            match closest_room(&level, i, true) {
                Some(closest) => {
                    let ghost mid = level.rooms@;
                    let ghost whole = level;
                    connect_rooms(&mut level, i, closest, GROUND, CORRIDOR_WALL);
                    proof {
                        lemma_links_keep_sizes(mid, level.rooms@, i as int, closest as int, n as int);
                        lemma_connected_floored(whole, level, i as int, closest as int);
                        if linked(mid, i as int, closest as int) {
                            lemma_joined_through(mid, i as int, closest as int, 0);
                            assert(false);
                        }
                        assert(linked(level.rooms@, i as int, closest as int));
                        lemma_joined_survives(mid, level.rooms@, i as int, closest as int, closest as int, 0);
                        lemma_joined_through(level.rooms@, i as int, closest as int, 0);
                        assert forall|k: int| 0 <= k < i implies joined(level.rooms@, k, 0) by {
                            lemma_joined_survives(mid, level.rooms@, i as int, closest as int, k, 0);
                        }
                    }
                },
                None => {
                    assert(false);
                },
            }
        }
        i = i + 1;
    }
    level
}

/// Recording a corridor changes no room's place or size, and keeps every
/// corridor that a room has to itself.
proof fn lemma_links_keep_sizes(before: Seq<Room>, after: Seq<Room>, i: int, j: int, upto: int)
    requires
        before == after || rooms_linked(before, after, i, j),
        0 <= upto <= before.len(),
        forall|k: int| 0 <= k < upto ==> linked(before, k, k),
    ensures
        forall|k: int| 0 <= k < upto ==> linked(after, k, k),
        forall|r: int|
            0 <= r < before.len() ==> (#[trigger] after[r]).w == before[r].w && after[r].h
                == before[r].h,
{
    assert forall|k: int| 0 <= k < upto implies linked(after, k, k) by {
        assert(linked(before, k, k));
    }
}

} // verus!
