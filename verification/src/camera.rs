//! The window onto the world: which part of the map the screen shows.

use vstd::prelude::*;
use crate::fixed::{clamp_coord, clamp_to_coord, div_toward_zero, trunc_div, Vec2};
use crate::game::Game;

verus! {

/// The visible part of the world: its top-left corner and its size.
#[derive(Clone, Copy, Debug, PartialEq, Eq, Structural)]
pub struct GameCamera {
    pub pos: Vec2,
    pub dim: Vec2,
}

/// `v` held within `lo..=hi`; where the two bounds cross, values below `lo`
/// become `lo` and all others `hi`.
pub open spec fn bounded(v: int, lo: int, hi: int) -> int {
    if v < lo {
        lo
    } else if v > hi {
        hi
    } else {
        v
    }
}

/// Where the camera's corner goes along one axis so that the player stays
/// within the middle half of the view.
pub open spec fn follow_axis(cam: int, dim: int, player: int) -> int {
    let margin = trunc_div(dim, 4);
    if player < cam + margin {
        player - margin
    } else if player > cam + dim - margin {
        player - dim + margin
    } else {
        cam
    }
}

/// The camera's corner along one axis after it has followed the player and
/// been held within the world.
pub open spec fn camera_axis_after(cam: int, dim: int, player: int, world: int) -> int {
    clamp_coord(bounded(follow_axis(cam, dim, player), 0, world - dim))
}

/// How far the world is shifted on screen along one axis: centred when the
/// screen is larger than the world, and moved against the camera.
pub open spec fn offset_axis(cam: int, world: int, screen: int) -> int {
    clamp_coord(
        -cam + (if screen > world {
            trunc_div(screen - world, 2)
        } else {
            0
        }),
    )
}

fn follow(cam: i32, dim: i32, player: i32, world: i32) -> (c: i32)
    ensures
        c == camera_axis_after(cam as int, dim as int, player as int, world as int),
{
    let margin: i128 = div_toward_zero(dim as i128, 4);
    let cam_w: i128 = cam as i128;
    let dim_w: i128 = dim as i128;
    let p: i128 = player as i128;
    let moved: i128 = if p < cam_w + margin {
        p - margin
    } else if p > cam_w + dim_w - margin {
        p - dim_w + margin
    } else {
        cam_w
    };
    let hi: i128 = world as i128 - dim_w;
    let held: i128 = if moved < 0 {
        0
    } else if moved > hi {
        hi
    } else {
        moved
    };
    clamp_to_coord(held)
}

fn shift(cam: i32, world: i32, screen: i32) -> (o: i32)
    ensures
        o == offset_axis(cam as int, world as int, screen as int),
{
    let centre: i128 = if screen > world {
        div_toward_zero(screen as i128 - world as i128, 2)
    } else {
        0
    };
    clamp_to_coord(-(cam as i128) + centre)
}

impl GameCamera {
    /// The camera after it has followed a player at `player` within a world
    /// of extent `world`.
    pub open spec fn spec_after(&self, player: Vec2, world: Vec2) -> GameCamera {
        GameCamera {
            pos: Vec2 {
                x: camera_axis_after(
                    self.pos.x as int,
                    self.dim.x as int,
                    player.x as int,
                    world.x as int,
                ) as i32,
                y: camera_axis_after(
                    self.pos.y as int,
                    self.dim.y as int,
                    player.y as int,
                    world.y as int,
                ) as i32,
            },
            dim: self.dim,
        }
    }

    /// The camera that first frames a player at `player`: as large as the
    /// screen above the status bar of height `hud`, but no larger than the
    /// world, and centred on the player.
    pub open spec fn spec_framing(player: Vec2, world: Vec2, screen: Vec2, hud: int) -> GameCamera {
        let w = if screen.x > world.x {
            world.x as int
        } else {
            screen.x as int
        };
        let h = if screen.y - hud > world.y {
            world.y as int
        } else {
            clamp_coord(screen.y - hud)
        };
        GameCamera {
            pos: Vec2 {
                x: clamp_coord(player.x - trunc_div(w, 2)) as i32,
                y: clamp_coord(player.y - trunc_div(h, 2)) as i32,
            },
            dim: Vec2 { x: w as i32, y: h as i32 },
        }
    }

    /// Builds the camera that first frames the player.
    pub fn framing(player: Vec2, world: Vec2, screen: Vec2, hud: i32) -> (cam: GameCamera)
        ensures
            cam == GameCamera::spec_framing(player, world, screen, hud as int),
    {
        let w: i32 = if screen.x > world.x {
            world.x
        } else {
            screen.x
        };
        let below: i128 = screen.y as i128 - hud as i128;
        let h: i32 = if below > world.y as i128 {
            world.y
        } else {
            clamp_to_coord(below)
        };
        GameCamera {
            pos: Vec2 {
                x: clamp_to_coord(player.x as i128 - div_toward_zero(w as i128, 2)),
                y: clamp_to_coord(player.y as i128 - div_toward_zero(h as i128, 2)),
            },
            dim: Vec2 { x: w, y: h },
        }
    }
}

impl Game {
    /// Lets the camera follow the player: while the player is within the
    /// middle half of the view the camera rests; beyond it the camera moves
    /// just far enough, but never past the edge of the world.
    pub fn update_camera(&mut self)
        ensures
            final(self).camera == old(self).camera.spec_after(
                old(self).player.pos,
                old(self).world.dim,
            ),
            final(self).lvl == old(self).lvl,
            final(self).player == old(self).player,
            final(self).enemies == old(self).enemies,
            final(self).world == old(self).world,
            final(self).controls == old(self).controls,
            final(self).stats == old(self).stats,
    {
        let x = follow(self.camera.pos.x, self.camera.dim.x, self.player.pos.x, self.world.dim.x);
        let y = follow(self.camera.pos.y, self.camera.dim.y, self.player.pos.y, self.world.dim.y);
        self.camera.pos = Vec2 { x, y };
    }

    /// The shift from world to screen coordinates for a screen of the given
    /// size.
    pub fn offset(&self, screen: Vec2) -> (off: Vec2)
        ensures
            off.x == offset_axis(
                self.camera.pos.x as int,
                self.world.dim.x as int,
                screen.x as int,
            ),
            off.y == offset_axis(
                self.camera.pos.y as int,
                self.world.dim.y as int,
                screen.y as int,
            ),
    {
        Vec2 {
            x: shift(self.camera.pos.x, self.world.dim.x, screen.x),
            y: shift(self.camera.pos.y, self.world.dim.y, screen.y),
        }
    }
}

} // verus!
