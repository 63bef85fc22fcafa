//! The player: abilities with cooldowns, and movement toward a target or
//! along the direction keys.

use vstd::prelude::*;
use crate::controls::Controls;
use crate::enemy::{all_wf, is_projectile, Enemy, EnemyStrategy};
use crate::entity::{boxes_collide, boxes_overlap, solid_extent, Entity};
use crate::fixed::{direction, dist_sq, distance_sq, fx_mul, scale, spec_direction, Vec2};
use crate::game::Game;
use crate::gfx::StaticSprite;
use crate::level::Level;
use crate::movement::{advance, moved, reachable, resolved, Axis};

verus! {

/// How close to its target the player stops, in fixed-point units (5 pixels).
pub const ARRIVAL_RADIUS: i32 = 1280;

/// The fixed-point factor that keeps a diagonal step as long as a straight
/// one: the nearest 1/256th below 1/sqrt(2).
pub const DIAGONAL_FACTOR: i32 = 181;

/// An action that needs `cooldown` milliseconds of rest after each use.
/// Nothing counts down: readiness is always derived from the clock.
pub struct Ability {
    pub name: String,
    pub cooldown: u64,
    pub last_use: Option<u64>,
}

/// What the player wears.  The simulation carries it along untouched.
pub struct Inventory {
    pub amulet: Option<String>,
    pub head: Option<String>,
    pub body: Option<String>,
    pub arm1: Option<String>,
    pub arm2: Option<String>,
    pub ring1: Option<String>,
    pub ring2: Option<String>,
    pub belt: Option<String>,
    pub foot: Option<String>,
}

/// The character that the person at the controls moves.
pub struct Player {
    pub pos: Vec2,
    /// Where the player is walking to, if anywhere.
    pub target_pos: Option<Vec2>,
    pub dim: Vec2,
    /// How many tiles far the player sees.
    pub light_radius: usize,
    pub sprite: StaticSprite,
    pub inventory: Inventory,
    pub speed: i32,
    pub hp: usize,
    pub hp_max: usize,
    pub auto: Ability,
    pub q: Ability,
}

impl Ability {
    /// Whether the ability is still resting at `time`: it has been used, and
    /// the rest that began then ends strictly after `time`.
    pub open spec fn spec_is_on_cooldown(&self, time: u64) -> bool {
        match self.last_use {
            Some(used) => used + self.cooldown > time,
            None => false,
        }
    }

    /// Milliseconds of rest left at `time`; negative once the rest is over,
    /// zero for an ability that was never used.
    pub open spec fn spec_cooldown_left(&self, time: u64) -> int {
        match self.last_use {
            Some(used) => used + self.cooldown - time,
            None => 0,
        }
    }

    pub fn is_on_cooldown(&self, time: u64) -> (resting: bool)
        ensures
            resting == self.spec_is_on_cooldown(time),
    {
        match self.last_use {
            Some(used) => used as u128 + self.cooldown as u128 > time as u128,
            None => false,
        }
    }

    pub fn cooldown_left(&self, time: u64) -> (left: i128)
        ensures
            left == self.spec_cooldown_left(time),
    {
        match self.last_use {
            Some(used) => used as i128 + self.cooldown as i128 - time as i128,
            None => 0,
        }
    }
}

/// An ability is ready until its first use; once used at `used` it rests
/// at every `now` before `used + cooldown` and is ready again from exactly
/// that instant on.
pub proof fn lemma_cooldown_window(ability: Ability, used: u64, now: u64)
    ensures
        ability.last_use is None ==> !ability.spec_is_on_cooldown(now),
        ability.last_use == Some(used) ==> (ability.spec_is_on_cooldown(now) <==> now < used
            + ability.cooldown),
        ability.last_use == Some(used) && ability.cooldown > 0 ==> ability.spec_is_on_cooldown(
            used,
        ),
{
}

impl Player {
    /// The player's box has area and its hit points do not exceed their
    /// maximum.
    pub open spec fn wf(&self) -> bool {
        self.hp <= self.hp_max && solid_extent(self.dim)
    }
}

impl Entity for Player {
    open spec fn spec_pos(&self) -> Vec2 {
        self.pos
    }

    open spec fn spec_dim(&self) -> Vec2 {
        self.dim
    }

    fn pos(&self) -> (p: Vec2) {
        self.pos
    }

    fn dim(&self) -> (d: Vec2) {
        self.dim
    }
}

/// Whether some enemy that is no projectile overlaps a box.
pub open spec fn overlaps_any(s: Seq<Enemy>, pos: Vec2, dim: Vec2) -> bool {
    exists|j: int| 0 <= j < s.len() && !is_projectile(#[trigger] s[j]) && boxes_overlap(pos, dim, s[j].pos, s[j].dim)
}

/// Whether the player may not stand at `at`: a solid tile or an enemy that
/// is no projectile is there.
pub open spec fn player_obstructed(p: Player, s: Seq<Enemy>, lvl: Level, at: Vec2) -> bool {
    lvl.spec_is_solid_at(at) || overlaps_any(s, at, p.dim)
}

/// Whether a step of `delta` along `axis` is refused to the player.
pub open spec fn player_step_blocked(p: Player, s: Seq<Enemy>, lvl: Level, axis: Axis, delta: int) -> bool {
    !reachable(p.pos, axis, delta) || player_obstructed(p, s, lvl, moved(p.pos, axis, delta))
}

/// The player after attempting a step.
pub open spec fn player_after_step(p: Player, s: Seq<Enemy>, lvl: Level, axis: Axis, delta: int) -> Player {
    Player { pos: resolved(p.pos, axis, delta, player_step_blocked(p, s, lvl, axis, delta)), ..p }
}

/// The player after attempting a horizontal and then a vertical step.
pub open spec fn player_after_steps(p: Player, s: Seq<Enemy>, lvl: Level, dx: int, dy: int) -> Player {
    player_after_step(player_after_step(p, s, lvl, Axis::X, dx), s, lvl, Axis::Y, dy)
}

/// A player pushed diagonally against an obstacle slides along it: when
/// only the horizontal step is refused the vertical one is still taken in
/// full, and the other way round.  A refused step moves the player not at
/// all, and neither step changes anything but the position.
pub proof fn lemma_player_slides(p: Player, s: Seq<Enemy>, lvl: Level, dx: int, dy: int)
    ensures
        ({
            let after = player_after_steps(p, s, lvl, dx, dy);
            let x_refused = player_step_blocked(p, s, lvl, Axis::X, dx);
            let halfway = player_after_step(p, s, lvl, Axis::X, dx);
            let y_refused = player_step_blocked(halfway, s, lvl, Axis::Y, dy);
            &&& after == Player { pos: after.pos, ..p }
            &&& x_refused ==> after.pos.x == p.pos.x
            &&& !x_refused ==> after.pos.x == p.pos.x + dx
            &&& y_refused ==> after.pos.y == p.pos.y
            &&& !y_refused ==> after.pos.y == p.pos.y + dy
        }),
{
}

/// Whether a direction key asks for movement.
pub open spec fn keys_pressed(c: Controls) -> bool {
    c.spec_key_x() != 0 || c.spec_key_y() != 0
}

/// The distance covered per frame along each axis that a key asks for: the
/// full speed along one axis, the speed scaled by 1/sqrt(2) along both.
pub open spec fn key_pace(c: Controls, speed: i32) -> int {
    if c.spec_key_x() != 0 && c.spec_key_y() != 0 {
        fx_mul(speed as int, DIAGONAL_FACTOR as int)
    } else {
        speed as int
    }
}

/// The point the player walks toward this frame: the pointer while the
/// right button is pressed or held, else the target it already had.
pub open spec fn retargeted(p: Player, c: Controls) -> Option<Vec2> {
    if c.is_right_mouse_click || c.is_right_mouse_down {
        Some(c.mouse_pos)
    } else {
        p.target_pos
    }
}

/// Whether the player has arrived at `target`.
pub open spec fn arrived(p: Player, target: Vec2) -> bool {
    dist_sq(target, p.pos) < ARRIVAL_RADIUS * ARRIVAL_RADIUS
}

/// The player after its movement for one frame.  Direction keys take
/// precedence and cancel any target; without them the player walks
/// straight toward its target and forgets it on arrival.
pub open spec fn after_player_move(p: Player, c: Controls, s: Seq<Enemy>, lvl: Level) -> Player {
    if keys_pressed(c) {
        player_after_steps(
            Player { target_pos: None, ..p },
            s,
            lvl,
            c.spec_key_x() * key_pace(c, p.speed),
            c.spec_key_y() * key_pace(c, p.speed),
        )
    } else {
        match retargeted(p, c) {
            None => p,
            Some(target) => if arrived(p, target) {
                Player { target_pos: None, ..p }
            } else {
                player_after_steps(
                    Player { target_pos: Some(target), ..p },
                    s,
                    lvl,
                    fx_mul(spec_direction(p.pos, target).x as int, p.speed as int),
                    fx_mul(spec_direction(p.pos, target).y as int, p.speed as int),
                )
            },
        }
    }
}

/// Tests whether a box overlaps any enemy that is no projectile.
pub fn collides_any(pos: Vec2, dim: Vec2, enemies: &Vec<Enemy>) -> (hit: bool)
    requires
        solid_extent(dim),
        all_wf(enemies@),
    ensures
        hit == overlaps_any(enemies@, pos, dim),
{
    let n = enemies.len();
    let mut j: usize = 0;
    while j < n
        invariant
            j <= n == enemies@.len(),
            solid_extent(dim),
            all_wf(enemies@),
            forall|k: int| 0 <= k < j ==> !(!is_projectile(#[trigger] enemies@[k]) && boxes_overlap(pos, dim, enemies@[k].pos, enemies@[k].dim)),
        decreases n - j,
    {
        if enemies[j].strategy != EnemyStrategy::Projectile {
            assert(enemies@[j as int].wf());
            if boxes_collide(pos, dim, enemies[j].pos, enemies[j].dim) {
                return true;
            }
        }
        j = j + 1;
    }
    false
}

/// Lets the player attempt a step of `delta` along `axis`.  The player
/// moves only if the place it would reach can be stored, is not a solid
/// tile and overlaps no enemy that is no projectile; otherwise it stays
/// exactly where it was.
pub fn player_step(player: &mut Player, enemies: &Vec<Enemy>, lvl: &Level, axis: Axis, delta: i64)
    requires
        old(player).wf(),
        all_wf(enemies@),
    ensures
        *final(player) == player_after_step(*old(player), enemies@, *lvl, axis, delta as int),
        final(player).wf(),
{
    match advance(player.pos, axis, delta) {
        Some(target) => {
            if !(lvl.is_solid_at(target) || collides_any(target, player.dim, enemies)) {
                player.pos = target;
            }
        },
        None => {},
    }
}

impl Game {
    /// Moves the player for one frame as the controls ask.
    pub fn update_player(&mut self)
        requires
            old(self).wf(),
        ensures
            final(self).player == after_player_move(
                old(self).player,
                old(self).controls,
                old(self).enemies@,
                old(self).lvl,
            ),
            final(self).enemies == old(self).enemies,
            final(self).lvl == old(self).lvl,
            final(self).world == old(self).world,
            final(self).controls == old(self).controls,
            final(self).camera == old(self).camera,
            final(self).stats == old(self).stats,
            final(self).wf(),
    {
        let kx = self.controls.key_x();
        let ky = self.controls.key_y();
        if kx != 0 || ky != 0 {
            let pace: i64 = if kx != 0 && ky != 0 {
                scale(self.player.speed, DIAGONAL_FACTOR)
            } else {
                self.player.speed as i64
            };
            assert(-0x80_0000_0000 <= pace <= 0x80_0000_0000) by (nonlinear_arith)
                requires
                    pace == self.player.speed || pace == fx_mul(self.player.speed as int, 181),
                    -0x8000_0000 <= self.player.speed <= 0x7FFF_FFFF,
            ;
            self.player.target_pos = None;
            player_step(&mut self.player, &self.enemies, &self.lvl, Axis::X, kx as i64 * pace);
            player_step(&mut self.player, &self.enemies, &self.lvl, Axis::Y, ky as i64 * pace);
            return ;
        }
        if self.controls.is_right_mouse_click || self.controls.is_right_mouse_down {
            self.player.target_pos = Some(self.controls.mouse_pos);
        }
        match self.player.target_pos {
            Some(target) => {
                if distance_sq(target, self.player.pos) < 1638400 {
                    self.player.target_pos = None;
                } else {
                    let dir = direction(self.player.pos, target);
                    let speed = self.player.speed;
                    player_step(&mut self.player, &self.enemies, &self.lvl, Axis::X, scale(dir.x, speed));
                    player_step(&mut self.player, &self.enemies, &self.lvl, Axis::Y, scale(dir.y, speed));
                }
            },
            None => {},
        }
    }
}

} // verus!
