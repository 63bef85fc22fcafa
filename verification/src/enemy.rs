//! Enemies: their behaviours, the damage they deal and take, and their
//! removal from the map.

use vstd::prelude::*;
use crate::entity::{boxes_collide, boxes_overlap, outside_level, pos_out_of_lvl_bounds, solid_extent, Entity};
use crate::fixed::{direction, dist_sq, distance_sq, fx_mul, negatable, scale, spec_direction, Vec2};
use crate::game::{Game, GameStats};
use crate::error::ConfigError;
use crate::gfx::{AnimatedSprite, Frame, Rect};
use crate::level::Level;
use crate::movement::{advance, along, coord, drift, drifted, moved, reachable, resolved, Axis, StepReport};
use crate::player::{Ability, Player};
use crate::resources::{parse_strategy, spec_find_enemy, spec_strategy, EnemyDefinition, Resources};

verus! {

/// How long an enemy's melee attack rests between blows, in milliseconds.
pub const MELEE_COOLDOWN: u64 = 500;

/// From how far a chaser notices the player, in fixed-point units
/// (160 pixels).
pub const AGGRO_RADIUS: i32 = 40960;

/// How long a chaser keeps chasing a player it no longer notices, in
/// milliseconds.
pub const AGGRO_DURATION: u64 = 5000;

/// What governs an enemy's movement and attacks.
#[derive(Clone, Copy, Debug, PartialEq, Eq, Structural)]
pub enum EnemyStrategy {
    FollowPlayer,
    HorizontalPatrol,
    VerticalPatrol,
    NoMovement,
    Projectile,
}

/// Anything on the map that is not the player: walkers, chasers, posts,
/// objectives, and the projectiles the player launches.
pub struct Enemy {
    pub name: String,
    pub pos: Vec2,
    pub dim: Vec2,
    pub sprite: AnimatedSprite,
    pub strategy: EnemyStrategy,
    pub hp: usize,
    pub hp_max: usize,
    /// For a patroller, the signed distance it covers per frame; for a
    /// projectile, the unit vector it flies along.
    pub dir: Vec2,
    /// Distance per frame on open ground.
    pub speed: i32,
    /// Distance per frame on solid ground; an enemy that has one passes
    /// through walls.
    pub speed_solid: i32,
    /// Whether the enemy is hidden while it stands in the fog.
    pub fog_of_war: bool,
    pub damage: usize,
    pub melee: Ability,
    pub aggro_radius: i32,
    /// Until when the enemy chases the player, if it does.
    pub aggro_cooldown: Option<u64>,
    pub aggro_duration: u64,
}

/// The fighting part of the world, as one enemy's turn sees and changes it.
pub struct Scene {
    pub enemies: Seq<Enemy>,
    pub player: Player,
    pub stats: GameStats,
}

/// Whether the enemy is a projectile in flight.
pub open spec fn is_projectile(e: Enemy) -> bool {
    e.strategy == EnemyStrategy::Projectile
}

/// Whether the enemy is an objective: the level is won when none is left.
pub open spec fn is_nexus(e: Enemy) -> bool {
    e.name@ == "Nexus"@
}

impl Enemy {
    /// The enemy's box has area, its hit points do not exceed their
    /// maximum, its sprite has a frame to show, and its speeds and
    /// direction can be reversed.
    pub open spec fn wf(&self) -> bool {
        &&& self.hp <= self.hp_max
        &&& solid_extent(self.dim)
        &&& self.sprite.wf()
        &&& negatable(self.dir.x)
        &&& negatable(self.dir.y)
        &&& negatable(self.speed)
        &&& negatable(self.speed_solid)
    }
}

impl Entity for Enemy {
    open spec fn spec_pos(&self) -> Vec2 {
        self.pos
    }

    open spec fn spec_dim(&self) -> Vec2 {
        self.dim
    }

    fn pos(&self) -> (p: Vec2) {
        self.pos
    }

    fn dim(&self) -> (d: Vec2) {
        self.dim
    }
}

/// Every enemy of the sequence is well formed.
pub open spec fn all_wf(s: Seq<Enemy>) -> bool {
    forall|j: int| 0 <= j < s.len() ==> (#[trigger] s[j]).wf()
}

/// Whether enemy `j` is in the way of a box that belongs to enemy `i`.
/// Projectiles are never in the way, and no enemy is in its own way.
pub open spec fn obstructs(s: Seq<Enemy>, i: int, pos: Vec2, dim: Vec2, j: int) -> bool {
    j != i && !is_projectile(s[j]) && boxes_overlap(pos, dim, s[j].pos, s[j].dim)
}

/// The first enemy at or after index `from` that is in the way.
pub open spec fn first_obstacle_from(s: Seq<Enemy>, i: int, pos: Vec2, dim: Vec2, from: int) -> Option<
    int,
>
    decreases s.len() - from,
{
    if from >= s.len() {
        None
    } else if obstructs(s, i, pos, dim, from) {
        Some(from)
    } else {
        first_obstacle_from(s, i, pos, dim, from + 1)
    }
}

/// The first enemy, in list order, that is in the way of a box belonging to
/// enemy `i`.
pub open spec fn first_obstacle(s: Seq<Enemy>, i: int, pos: Vec2, dim: Vec2) -> Option<int> {
    first_obstacle_from(s, i, pos, dim, 0)
}

/// `first_obstacle_from` names the least obstructing index at or after
/// `from`, and `None` exactly when there is none.
pub proof fn lemma_first_obstacle(s: Seq<Enemy>, i: int, pos: Vec2, dim: Vec2, from: int)
    requires
        0 <= from,
    ensures
        match first_obstacle_from(s, i, pos, dim, from) {
            Some(j) => from <= j < s.len() && obstructs(s, i, pos, dim, j) && forall|k: int|
                from <= k < j ==> !obstructs(s, i, pos, dim, k),
            None => forall|k: int| from <= k < s.len() ==> !obstructs(s, i, pos, dim, k),
        },
    decreases s.len() - from,
{
    if from < s.len() && !obstructs(s, i, pos, dim, from) {
        lemma_first_obstacle(s, i, pos, dim, from + 1);
    }
}

/// Which enemy is in the way does not depend on enemy `i` itself.
pub proof fn lemma_first_obstacle_ignores_self(
    s: Seq<Enemy>,
    i: int,
    e: Enemy,
    pos: Vec2,
    dim: Vec2,
    from: int,
)
    requires
        0 <= from,
        0 <= i < s.len(),
    ensures
        first_obstacle_from(s.update(i, e), i, pos, dim, from) == first_obstacle_from(
            s,
            i,
            pos,
            dim,
            from,
        ),
    decreases s.len() - from,
{
    if from < s.len() {
        lemma_first_obstacle_ignores_self(s, i, e, pos, dim, from + 1);
    }
}

/// Whether the enemy passes over solid tiles: it stands on one already, or
/// it has a speed for solid ground.
pub open spec fn ignores_solid(e: Enemy, lvl: Level) -> bool {
    lvl.spec_is_solid_at(e.pos) || e.speed_solid > 0
}

/// The speed that applies where the enemy stands.
pub open spec fn effective_speed(e: Enemy, lvl: Level) -> i32 {
    if lvl.spec_is_solid_at(e.pos) {
        e.speed_solid
    } else {
        e.speed
    }
}

/// Whether enemy `i` may not stand at `at`: a solid tile it cannot pass,
/// another enemy, or the player is there.
pub open spec fn enemy_obstructed(
    s: Seq<Enemy>,
    i: int,
    player: Player,
    lvl: Level,
    ignore_solid: bool,
    at: Vec2,
) -> bool {
    ||| !ignore_solid && lvl.spec_is_solid_at(at)
    ||| first_obstacle(s, i, at, s[i].dim) is Some
    ||| boxes_overlap(player.pos, player.dim, at, s[i].dim)
}

/// Whether a step of `delta` along `axis` is refused to enemy `i`.
pub open spec fn enemy_step_blocked(
    s: Seq<Enemy>,
    i: int,
    player: Player,
    lvl: Level,
    ignore_solid: bool,
    axis: Axis,
    delta: int,
) -> bool {
    !reachable(s[i].pos, axis, delta) || enemy_obstructed(
        s,
        i,
        player,
        lvl,
        ignore_solid,
        moved(s[i].pos, axis, delta),
    )
}

/// Whether a step of `delta` along `axis` brings enemy `i` into contact
/// with the player.
pub open spec fn enemy_step_touches(
    s: Seq<Enemy>,
    i: int,
    player: Player,
    axis: Axis,
    delta: int,
) -> bool {
    reachable(s[i].pos, axis, delta) && boxes_overlap(
        player.pos,
        player.dim,
        moved(s[i].pos, axis, delta),
        s[i].dim,
    )
}

/// The enemies after enemy `i` has attempted a step.
pub open spec fn after_enemy_step(
    s: Seq<Enemy>,
    i: int,
    player: Player,
    lvl: Level,
    ignore_solid: bool,
    axis: Axis,
    delta: int,
) -> Seq<Enemy> {
    if enemy_step_blocked(s, i, player, lvl, ignore_solid, axis, delta) {
        s
    } else {
        s.update(i, Enemy { pos: moved(s[i].pos, axis, delta), ..s[i] })
    }
}

/// Finds the first enemy that is in the way of a box belonging to enemy `i`.
pub fn first_obstacle_at(enemies: &Vec<Enemy>, i: usize, pos: Vec2, dim: Vec2) -> (hit: Option<usize>)
    requires
        all_wf(enemies@),
        solid_extent(dim),
    ensures
        match hit {
            Some(j) => first_obstacle(enemies@, i as int, pos, dim) == Some(j as int) && j
                < enemies@.len() && j != i && !is_projectile(enemies@[j as int]),
            None => first_obstacle(enemies@, i as int, pos, dim) is None,
        },
{
    let n = enemies.len();
    let mut j: usize = 0;
    while j < n
        invariant
            j <= n == enemies@.len(),
            all_wf(enemies@),
            solid_extent(dim),
            first_obstacle(enemies@, i as int, pos, dim) == first_obstacle_from(
                enemies@,
                i as int,
                pos,
                dim,
                j as int,
            ),
        decreases n - j,
    {
        if j != i && enemies[j].strategy != EnemyStrategy::Projectile {
            assert(enemies@[j as int].wf());
            if boxes_collide(pos, dim, enemies[j].pos, enemies[j].dim) {
                return Some(j);
            }
        }
        j = j + 1;
    }
    None
}

/// Finds the first enemy that overlaps enemy `i`.
pub fn collides_any(i: usize, enemies: &Vec<Enemy>) -> (hit: Option<usize>)
    requires
        i < enemies@.len(),
        all_wf(enemies@),
    ensures
        match hit {
            Some(j) => first_obstacle(
                enemies@,
                i as int,
                enemies@[i as int].pos,
                enemies@[i as int].dim,
            ) == Some(j as int) && j < enemies@.len() && j != i && !is_projectile(
                enemies@[j as int],
            ),
            None => first_obstacle(
                enemies@,
                i as int,
                enemies@[i as int].pos,
                enemies@[i as int].dim,
            ) is None,
        },
{
    assert(enemies@[i as int].wf());
    first_obstacle_at(enemies, i, enemies[i].pos, enemies[i].dim)
}

/// Lets enemy `i` attempt a step of `delta` along `axis`.  The enemy moves
/// only if the place it would reach can be stored, is not a solid tile
/// (unless `ignore_solid`), and overlaps neither another enemy that is no
/// projectile nor the player.  Otherwise it stays exactly where it was.
pub fn enemy_step(
    enemies: &mut Vec<Enemy>,
    i: usize,
    player: &Player,
    lvl: &Level,
    ignore_solid: bool,
    axis: Axis,
    delta: i64,
) -> (report: StepReport)
    requires
        i < old(enemies)@.len(),
        all_wf(old(enemies)@),
        player.wf(),
    ensures
        report.blocked == enemy_step_blocked(
            old(enemies)@,
            i as int,
            *player,
            *lvl,
            ignore_solid,
            axis,
            delta as int,
        ),
        report.touched == enemy_step_touches(old(enemies)@, i as int, *player, axis, delta as int),
        final(enemies)@ == after_enemy_step(
            old(enemies)@,
            i as int,
            *player,
            *lvl,
            ignore_solid,
            axis,
            delta as int,
        ),
        final(enemies)@.len() == old(enemies)@.len(),
        all_wf(final(enemies)@),
{
    assert(enemies@[i as int].wf());
    let dim = enemies[i].dim;
    let target = match advance(enemies[i].pos, axis, delta) {
        Some(target) => target,
        None => {
            return StepReport { blocked: true, touched: false };
        },
    };
    let touched = boxes_collide(player.pos, player.dim, target, dim);
    let blocked = (!ignore_solid && lvl.is_solid_at(target)) || first_obstacle_at(
        enemies,
        i,
        target,
        dim,
    ).is_some() || touched;
    if !blocked {
        enemies[i].pos = target;
        assert forall|j: int| 0 <= j < enemies@.len() implies (#[trigger] enemies@[j]).wf() by {
            assert(old(enemies)@[j].wf());
        }
    }
    StepReport { blocked, touched }
}

/// The signed distance a patroller covers per frame along its axis: the
/// one it remembers, or its speed if it has not set out yet.
pub open spec fn patrol_pace(e: Enemy, lvl: Level, axis: Axis) -> i32 {
    if coord(e.dir, axis) == 0 {
        effective_speed(e, lvl)
    } else {
        coord(e.dir, axis) as i32
    }
}

/// Whether the patroller `i` is turned back this frame.
pub open spec fn patrol_blocked(s: Seq<Enemy>, i: int, player: Player, lvl: Level, axis: Axis) -> bool {
    enemy_step_blocked(
        s,
        i,
        player,
        lvl,
        ignores_solid(s[i], lvl),
        axis,
        patrol_pace(s[i], lvl, axis) as int,
    )
}

/// Whether the patroller `i` runs into the player this frame.
pub open spec fn patrol_touches(s: Seq<Enemy>, i: int, player: Player, lvl: Level, axis: Axis) -> bool {
    enemy_step_touches(s, i, player, axis, patrol_pace(s[i], lvl, axis) as int)
}

/// The enemies after the patroller `i` has taken its turn: it has advanced
/// by its pace, or it has stayed and now faces the other way.
pub open spec fn after_patrol(s: Seq<Enemy>, i: int, player: Player, lvl: Level, axis: Axis) -> Seq<
    Enemy,
> {
    let pace = patrol_pace(s[i], lvl, axis);
    let blocked = patrol_blocked(s, i, player, lvl, axis);
    s.update(
        i,
        Enemy {
            pos: resolved(s[i].pos, axis, pace as int, blocked),
            dir: along(
                axis,
                if blocked {
                    (-pace) as i32
                } else {
                    pace
                },
            ),
            ..s[i]
        },
    )
}

/// Moves the patroller `i` along `axis`, turning it around when its way is
/// blocked.  Reports whether it ran into the player.
pub fn patrol_move(
    enemies: &mut Vec<Enemy>,
    i: usize,
    player: &Player,
    lvl: &Level,
    axis: Axis,
) -> (touched: bool)
    requires
        i < old(enemies)@.len(),
        all_wf(old(enemies)@),
        player.wf(),
    ensures
        touched == patrol_touches(old(enemies)@, i as int, *player, *lvl, axis),
        final(enemies)@ == after_patrol(old(enemies)@, i as int, *player, *lvl, axis),
        final(enemies)@.len() == old(enemies)@.len(),
        all_wf(final(enemies)@),
{
    assert(enemies@[i as int].wf());
    let on_solid = lvl.is_solid_at(enemies[i].pos);
    let ignore_solid = on_solid || enemies[i].speed_solid > 0;
    let speed = if on_solid {
        enemies[i].speed_solid
    } else {
        enemies[i].speed
    };
    let stored = match axis {
        Axis::X => enemies[i].dir.x,
        Axis::Y => enemies[i].dir.y,
    };
    let pace = if stored == 0 {
        speed
    } else {
        stored
    };
    let report = enemy_step(enemies, i, player, lvl, ignore_solid, axis, pace as i64);
    let heading = if report.blocked {
        -pace
    } else {
        pace
    };
    let ghost before = enemies@;
    enemies[i].dir = match axis {
        Axis::X => Vec2 { x: heading, y: 0 },
        Axis::Y => Vec2 { x: 0, y: heading },
    };
    assert forall|j: int| 0 <= j < enemies@.len() implies (#[trigger] enemies@[j]).wf() by {
        assert(before[j].wf());
    }
    assert(enemies@ =~= after_patrol(old(enemies)@, i as int, *player, *lvl, axis));
    report.touched
}

/// A patroller bounces: when its way is blocked it stays exactly where it
/// was and reverses its pace, otherwise it advances by its pace and keeps
/// it.  One that cannot pass solid tiles never comes to stand on one, and
/// remains unable to pass them.
pub proof fn lemma_patrol_bounces(s: Seq<Enemy>, i: int, player: Player, lvl: Level, axis: Axis)
    requires
        0 <= i < s.len(),
        s[i].wf(),
    ensures
        ({
            let pace = patrol_pace(s[i], lvl, axis);
            let after = after_patrol(s, i, player, lvl, axis)[i];
            &&& patrol_blocked(s, i, player, lvl, axis) ==> after.pos == s[i].pos && after.dir
                == along(axis, (-pace) as i32) && coord(after.dir, axis) == -pace
            &&& !patrol_blocked(s, i, player, lvl, axis) ==> after.pos == moved(
                s[i].pos,
                axis,
                pace as int,
            ) && after.dir == along(axis, pace)
            &&& !ignores_solid(s[i], lvl) ==> !lvl.spec_is_solid_at(after.pos) && !ignores_solid(
                after,
                lvl,
            )
            &&& after.wf()
        }),
{
}

/// Whether the player stands within the chaser's aggro radius.
pub open spec fn within_aggro(e: Enemy, player: Player) -> bool {
    e.aggro_radius > 0 && dist_sq(e.pos, player.pos) < e.aggro_radius * e.aggro_radius
}

/// Until when the chaser stays on the player's heels, as decided at `time`:
/// a player within reach renews the chase for `aggro_duration`; otherwise a
/// chase whose time has come ends, and one whose time has not goes on.
pub open spec fn aggro_after(e: Enemy, player: Player, time: u64) -> Option<u64> {
    if within_aggro(e, player) {
        Some(time.saturating_add(e.aggro_duration))
    } else if e.aggro_cooldown matches Some(until) && until <= time {
        None
    } else {
        e.aggro_cooldown
    }
}

/// The enemies once chaser `i` has settled whether it is chasing at `time`.
pub open spec fn chase_alerted(s: Seq<Enemy>, i: int, player: Player, time: u64) -> Seq<Enemy> {
    s.update(i, Enemy { aggro_cooldown: aggro_after(s[i], player, time), ..s[i] })
}

/// The enemies once chaser `i`, being on the chase, has tried its
/// horizontal step toward the player.
pub open spec fn chase_after_x(s: Seq<Enemy>, i: int, player: Player, lvl: Level, time: u64) -> Seq<
    Enemy,
> {
    after_enemy_step(
        chase_alerted(s, i, player, time),
        i,
        player,
        lvl,
        ignores_solid(s[i], lvl),
        Axis::X,
        fx_mul(spec_direction(s[i].pos, player.pos).x as int, effective_speed(s[i], lvl) as int),
    )
}

/// The enemies after chaser `i` has taken its turn: if it is chasing, it
/// has tried a horizontal and then a vertical step along the straight line
/// toward the player, each on its own.
pub open spec fn after_chase(s: Seq<Enemy>, i: int, player: Player, lvl: Level, time: u64) -> Seq<
    Enemy,
> {
    if aggro_after(s[i], player, time) is None {
        chase_alerted(s, i, player, time)
    } else {
        after_enemy_step(
            chase_after_x(s, i, player, lvl, time),
            i,
            player,
            lvl,
            ignores_solid(s[i], lvl),
            Axis::Y,
            fx_mul(
                spec_direction(s[i].pos, player.pos).y as int,
                effective_speed(s[i], lvl) as int,
            ),
        )
    }
}

/// Whether chaser `i` runs into the player on either of its two steps.
pub open spec fn chase_touches(s: Seq<Enemy>, i: int, player: Player, lvl: Level, time: u64) -> bool {
    aggro_after(s[i], player, time) is Some && (enemy_step_touches(
        chase_alerted(s, i, player, time),
        i,
        player,
        Axis::X,
        fx_mul(spec_direction(s[i].pos, player.pos).x as int, effective_speed(s[i], lvl) as int),
    ) || enemy_step_touches(
        chase_after_x(s, i, player, lvl, time),
        i,
        player,
        Axis::Y,
        fx_mul(spec_direction(s[i].pos, player.pos).y as int, effective_speed(s[i], lvl) as int),
    ))
}

/// A chase that began with the player in reach at `seen` lasts, with the
/// player out of reach ever since, up to but not including the instant
/// `seen + aggro_duration`.
pub proof fn lemma_aggro_decay(e: Enemy, near: Player, later: Enemy, far: Player, seen: u64, now: u64)
    requires
        within_aggro(e, near),
        seen + e.aggro_duration <= u64::MAX,
        later.aggro_cooldown == aggro_after(e, near, seen),
        !within_aggro(later, far),
    ensures
        aggro_after(later, far, now) is Some <==> now < seen + e.aggro_duration,
        aggro_after(later, far, now) is Some ==> aggro_after(later, far, now)
            == later.aggro_cooldown,
{
}

/// Lets chaser `i` decide whether it chases and, if so, step toward the
/// player.  Reports whether it ran into the player.
pub fn chase_move(enemies: &mut Vec<Enemy>, i: usize, player: &Player, lvl: &Level, time: u64) -> (touched:
    bool)
    requires
        i < old(enemies)@.len(),
        all_wf(old(enemies)@),
        player.wf(),
    ensures
        touched == chase_touches(old(enemies)@, i as int, *player, *lvl, time),
        final(enemies)@ == after_chase(old(enemies)@, i as int, *player, *lvl, time),
        final(enemies)@.len() == old(enemies)@.len(),
        all_wf(final(enemies)@),
{
    assert(enemies@[i as int].wf());
    let from = enemies[i].pos;
    let on_solid = lvl.is_solid_at(from);
    let ignore_solid = on_solid || enemies[i].speed_solid > 0;
    let speed = if on_solid {
        enemies[i].speed_solid
    } else {
        enemies[i].speed
    };
    let radius = enemies[i].aggro_radius;
    let near = if radius > 0 {
        let r: u128 = radius as u128;
        assert(r * r == radius * radius && r * r <= 0x4000_0000_0000_0000) by (nonlinear_arith)
            requires
                r == radius,
                0 < radius <= 0x7FFF_FFFF,
        ;
        distance_sq(from, player.pos) < r * r
    } else {
        false
    };
    if near {
        enemies[i].aggro_cooldown = Some(time.saturating_add(enemies[i].aggro_duration));
    } else {
        match enemies[i].aggro_cooldown {
            Some(until) => {
                if until <= time {
                    enemies[i].aggro_cooldown = None;
                }
            },
            None => {},
        }
    }
    assert(enemies@ =~= chase_alerted(old(enemies)@, i as int, *player, time));
    assert forall|j: int| 0 <= j < enemies@.len() implies (#[trigger] enemies@[j]).wf() by {
        assert(old(enemies)@[j].wf());
    }
    if enemies[i].aggro_cooldown.is_none() {
        return false;
    }
    let dir = direction(from, player.pos);
    let first = enemy_step(enemies, i, player, lvl, ignore_solid, Axis::X, scale(dir.x, speed));
    let second = enemy_step(enemies, i, player, lvl, ignore_solid, Axis::Y, scale(dir.y, speed));
    first.touched || second.touched
}

/// What is left of `hp` hit points after `damage`.
pub open spec fn hp_after_hit(hp: usize, damage: usize) -> usize {
    if damage >= hp {
        0
    } else {
        (hp - damage) as usize
    }
}

/// The damage that `shot` deals to `target` when `standing` enemies other
/// than projectiles were on the map as the frame began: ten times the
/// shot's damage if the target is an objective and the only one standing.
pub open spec fn impact_damage(shot: Enemy, target: Enemy, standing: int) -> usize {
    if is_nexus(target) && standing == 1 {
        if shot.damage * 10 > usize::MAX {
            usize::MAX
        } else {
            (shot.damage * 10) as usize
        }
    } else {
        shot.damage
    }
}

/// Where projectile `i` is after this frame's flight.
pub open spec fn projectile_target(e: Enemy, lvl: Level) -> Vec2 {
    drifted(
        e.pos,
        fx_mul(e.dir.x as int, effective_speed(e, lvl) as int),
        fx_mul(e.dir.y as int, effective_speed(e, lvl) as int),
    )
}

/// The enemies with projectile `i` flown to its new place.
pub open spec fn projectile_flown(s: Seq<Enemy>, i: int, lvl: Level) -> Seq<Enemy> {
    s.update(i, Enemy { pos: projectile_target(s[i], lvl), ..s[i] })
}

/// The enemy that projectile `i` strikes this frame, if any: the first one
/// in list order that its box overlaps where it arrives.
pub open spec fn projectile_victim(s: Seq<Enemy>, i: int, lvl: Level) -> Option<int> {
    first_obstacle(s, i, projectile_target(s[i], lvl), s[i].dim)
}

/// The damage that projectile `i` deals this frame, if it strikes.
pub open spec fn projectile_damage(s: Seq<Enemy>, i: int, lvl: Level, standing: int) -> Option<usize> {
    match projectile_victim(s, i, lvl) {
        Some(j) => Some(impact_damage(s[i], s[j], standing)),
        None => None,
    }
}

/// Whether projectile `i` brings an enemy down this frame: its victim had
/// hit points left and has none after the blow.
pub open spec fn projectile_kills(s: Seq<Enemy>, i: int, lvl: Level, standing: int) -> bool {
    projectile_victim(s, i, lvl) matches Some(j) && s[j].hp > 0 && hp_after_hit(
        s[j].hp,
        impact_damage(s[i], s[j], standing),
    ) == 0
}

/// The enemies after projectile `i` has taken its turn: it has flown on,
/// and if it struck an enemy, that enemy has lost hit points and the
/// projectile is spent.
pub open spec fn after_projectile(s: Seq<Enemy>, i: int, lvl: Level, standing: int) -> Seq<Enemy> {
    let flown = projectile_flown(s, i, lvl);
    match projectile_victim(s, i, lvl) {
        None => flown,
        Some(j) => flown.update(
            j,
            Enemy { hp: hp_after_hit(s[j].hp, impact_damage(s[i], s[j], standing)), ..s[j] },
        ).update(i, Enemy { hp: 0, ..flown[i] }),
    }
}

/// The totals after projectile `i` has taken its turn.
pub open spec fn stats_after_projectile(
    stats: GameStats,
    s: Seq<Enemy>,
    i: int,
    lvl: Level,
    standing: int,
) -> GameStats {
    match projectile_damage(s, i, lvl, standing) {
        None => stats,
        Some(damage) => GameStats {
            damage_dealt: stats.damage_dealt.saturating_add(damage),
            enemies_killed: if projectile_kills(s, i, lvl, standing) {
                stats.enemies_killed.saturating_add(1)
            } else {
                stats.enemies_killed
            },
            ..stats
        },
    }
}

/// A shot of damage `d` that strikes an objective standing alone takes
/// `10 * d` of its hit points, or all of them if it has fewer.
pub proof fn lemma_finishing_blow(shot: Enemy, target: Enemy)
    requires
        is_nexus(target),
    ensures
        hp_after_hit(target.hp, impact_damage(shot, target, 1)) == (if target.hp >= 10
            * shot.damage {
            target.hp - 10 * shot.damage
        } else {
            0
        }),
{
}

/// Moves projectile `i` along its direction and lets it strike the first
/// enemy it overlaps.  A struck enemy loses hit points, the damage is added
/// to the totals, a kill is counted if the blow was the one that brought the
/// enemy down, and the projectile is spent whatever it struck.
pub fn projectile_move(
    enemies: &mut Vec<Enemy>,
    i: usize,
    lvl: &Level,
    stats: &mut GameStats,
    standing: usize,
)
    requires
        i < old(enemies)@.len(),
        all_wf(old(enemies)@),
    ensures
        final(enemies)@ == after_projectile(old(enemies)@, i as int, *lvl, standing as int),
        *final(stats) == stats_after_projectile(
            *old(stats),
            old(enemies)@,
            i as int,
            *lvl,
            standing as int,
        ),
        final(enemies)@.len() == old(enemies)@.len(),
        all_wf(final(enemies)@),
{
    assert(enemies@[i as int].wf());
    let speed = if lvl.is_solid_at(enemies[i].pos) {
        enemies[i].speed_solid
    } else {
        enemies[i].speed
    };
    let target = drift(enemies[i].pos, scale(enemies[i].dir.x, speed), scale(enemies[i].dir.y, speed));
    enemies[i].pos = target;
    let ghost flown = enemies@;
    assert(flown =~= projectile_flown(old(enemies)@, i as int, *lvl));
    assert forall|j: int| 0 <= j < enemies@.len() implies (#[trigger] enemies@[j]).wf() by {
        assert(old(enemies)@[j].wf());
    }
    proof {
        lemma_first_obstacle_ignores_self(
            old(enemies)@,
            i as int,
            flown[i as int],
            target,
            flown[i as int].dim,
            0,
        );
    }
    match collides_any(i, enemies) {
        Some(j) => {
            let mut damage = enemies[i].damage;
            let objective = "Nexus".to_owned();
            if enemies[j].name == objective && standing == 1 {
                damage = match damage.checked_mul(10) {
                    Some(d) => d,
                    None => usize::MAX,
                };
            }
            let before = enemies[j].hp;
            let after = if damage >= before {
                0
            } else {
                before - damage
            };
            enemies[j].hp = after;
            stats.damage_dealt = stats.damage_dealt.saturating_add(damage);
            if before > 0 && after == 0 {
                stats.enemies_killed = stats.enemies_killed.saturating_add(1);
            }
            enemies[i].hp = 0;
            assert forall|k: int| 0 <= k < enemies@.len() implies (#[trigger] enemies@[k]).wf() by {
                assert(flown[k].wf());
            }
            assert(enemies@ =~= after_projectile(old(enemies)@, i as int, *lvl, standing as int));
        },
        None => {},
    }
}

/// Whether an enemy that ran into the player lands a blow at `time`: its
/// melee attack must have rested long enough.
pub open spec fn strikes(e: Enemy, touched: bool, time: u64) -> bool {
    touched && !e.melee.spec_is_on_cooldown(time)
}

/// The enemy at the end of its turn: its melee attack rests from `time` on
/// if it landed a blow, and its animation has run on.
pub open spec fn settled(e: Enemy, touched: bool, time: u64, frame_time: u32) -> Enemy {
    Enemy {
        melee: if strikes(e, touched, time) {
            Ability { last_use: Some(time), ..e.melee }
        } else {
            e.melee
        },
        sprite: e.sprite.spec_after(frame_time),
        ..e
    }
}

/// The player after enemy `e` has had its chance to land a blow.
pub open spec fn player_after_contact(player: Player, e: Enemy, touched: bool, time: u64) -> Player {
    if strikes(e, touched, time) {
        Player { hp: hp_after_hit(player.hp, e.damage), ..player }
    } else {
        player
    }
}

/// The totals after enemy `e` has had its chance to land a blow.
pub open spec fn stats_after_contact(stats: GameStats, e: Enemy, touched: bool, time: u64) -> GameStats {
    if strikes(e, touched, time) {
        GameStats { damage_received: stats.damage_received.saturating_add(e.damage), ..stats }
    } else {
        stats
    }
}

/// Ends the turn of enemy `i`: an enemy that ran into the player and whose
/// melee attack is ready takes its damage off the player's hit points,
/// never below zero, and rests from `time` on; every enemy's animation runs
/// on by `frame_time` milliseconds.
pub fn settle(
    enemies: &mut Vec<Enemy>,
    i: usize,
    player: &mut Player,
    stats: &mut GameStats,
    touched: bool,
    time: u64,
    frame_time: u32,
)
    requires
        i < old(enemies)@.len(),
        all_wf(old(enemies)@),
        old(player).wf(),
    ensures
        final(enemies)@ == old(enemies)@.update(
            i as int,
            settled(old(enemies)@[i as int], touched, time, frame_time),
        ),
        *final(player) == player_after_contact(
            *old(player),
            old(enemies)@[i as int],
            touched,
            time,
        ),
        *final(stats) == stats_after_contact(*old(stats), old(enemies)@[i as int], touched, time),
        final(enemies)@.len() == old(enemies)@.len(),
        all_wf(final(enemies)@),
        final(player).wf(),
{
    assert(enemies@[i as int].wf());
    if touched && !enemies[i].melee.is_on_cooldown(time) {
        let damage = enemies[i].damage;
        player.hp = if damage >= player.hp {
            0
        } else {
            player.hp - damage
        };
        enemies[i].melee.last_use = Some(time);
        stats.damage_received = stats.damage_received.saturating_add(damage);
    }
    enemies[i].sprite.update(frame_time);
    assert forall|j: int| 0 <= j < enemies@.len() implies (#[trigger] enemies@[j]).wf() by {
        assert(old(enemies)@[j].wf());
    }
    assert(enemies@ =~= old(enemies)@.update(
        i as int,
        settled(old(enemies)@[i as int], touched, time, frame_time),
    ));
}

/// The enemies after enemy `i` has moved according to its behaviour.
pub open spec fn after_move(sc: Scene, lvl: Level, i: int, time: u64, standing: int) -> Seq<Enemy> {
    match sc.enemies[i].strategy {
        EnemyStrategy::VerticalPatrol => after_patrol(sc.enemies, i, sc.player, lvl, Axis::Y),
        EnemyStrategy::HorizontalPatrol => after_patrol(sc.enemies, i, sc.player, lvl, Axis::X),
        EnemyStrategy::FollowPlayer => after_chase(sc.enemies, i, sc.player, lvl, time),
        EnemyStrategy::Projectile => after_projectile(sc.enemies, i, lvl, standing),
        EnemyStrategy::NoMovement => sc.enemies,
    }
}

/// Whether enemy `i` runs into the player while it moves.
pub open spec fn move_touches(sc: Scene, lvl: Level, i: int, time: u64) -> bool {
    match sc.enemies[i].strategy {
        EnemyStrategy::VerticalPatrol => patrol_touches(sc.enemies, i, sc.player, lvl, Axis::Y),
        EnemyStrategy::HorizontalPatrol => patrol_touches(sc.enemies, i, sc.player, lvl, Axis::X),
        EnemyStrategy::FollowPlayer => chase_touches(sc.enemies, i, sc.player, lvl, time),
        EnemyStrategy::Projectile => false,
        EnemyStrategy::NoMovement => false,
    }
}

/// The totals after enemy `i` has moved.
pub open spec fn stats_after_move(sc: Scene, lvl: Level, i: int, standing: int) -> GameStats {
    if is_projectile(sc.enemies[i]) {
        stats_after_projectile(sc.stats, sc.enemies, i, lvl, standing)
    } else {
        sc.stats
    }
}

/// The scene after the whole turn of enemy `i`: first its move, then its
/// blow against the player and its animation.
pub open spec fn after_turn(
    sc: Scene,
    lvl: Level,
    i: int,
    time: u64,
    frame_time: u32,
    standing: int,
) -> Scene {
    let s = after_move(sc, lvl, i, time, standing);
    let touched = move_touches(sc, lvl, i, time);
    Scene {
        enemies: s.update(i, settled(s[i], touched, time, frame_time)),
        player: player_after_contact(sc.player, s[i], touched, time),
        stats: stats_after_contact(stats_after_move(sc, lvl, i, standing), s[i], touched, time),
    }
}

/// The scene after the enemies below index `upto` have taken their turns
/// one after the other, in list order.
pub open spec fn after_turns(
    sc: Scene,
    lvl: Level,
    upto: int,
    time: u64,
    frame_time: u32,
    standing: int,
) -> Scene
    decreases upto,
{
    if upto <= 0 {
        sc
    } else {
        after_turn(
            after_turns(sc, lvl, upto - 1, time, frame_time, standing),
            lvl,
            upto - 1,
            time,
            frame_time,
            standing,
        )
    }
}

/// A turn leaves every actor sound: boxes keep their area and no hit points
/// exceed their maximum.  It neither adds nor removes an enemy, never heals
/// the player, and never lowers a total.
pub proof fn lemma_turn_keeps_actors_sound(
    sc: Scene,
    lvl: Level,
    i: int,
    time: u64,
    frame_time: u32,
    standing: int,
)
    requires
        0 <= i < sc.enemies.len(),
        all_wf(sc.enemies),
        sc.player.wf(),
    ensures
        all_wf(after_turn(sc, lvl, i, time, frame_time, standing).enemies),
        after_turn(sc, lvl, i, time, frame_time, standing).player.wf(),
        after_turn(sc, lvl, i, time, frame_time, standing).enemies.len() == sc.enemies.len(),
        after_turn(sc, lvl, i, time, frame_time, standing).player.hp <= sc.player.hp,
        after_turn(sc, lvl, i, time, frame_time, standing).stats.grown_from(sc.stats),
{
    let s = after_move(sc, lvl, i, time, standing);
    assert(s.len() == sc.enemies.len() && all_wf(s)) by {
        assert(sc.enemies[i].wf());
        match sc.enemies[i].strategy {
            EnemyStrategy::Projectile => {
                lemma_first_obstacle(
                    sc.enemies,
                    i,
                    projectile_target(sc.enemies[i], lvl),
                    sc.enemies[i].dim,
                    0,
                );
                assert forall|j: int| 0 <= j < s.len() implies (#[trigger] s[j]).wf() by {
                    assert(sc.enemies[j].wf());
                }
            },
            EnemyStrategy::FollowPlayer => {
                let s0 = chase_alerted(sc.enemies, i, sc.player, time);
                let s1 = chase_after_x(sc.enemies, i, sc.player, lvl, time);
                assert forall|j: int| 0 <= j < s0.len() implies (#[trigger] s0[j]).wf() by {
                    assert(sc.enemies[j].wf());
                }
                assert forall|j: int| 0 <= j < s1.len() implies (#[trigger] s1[j]).wf() by {
                    assert(s0[j].wf());
                }
                assert forall|j: int| 0 <= j < s.len() implies (#[trigger] s[j]).wf() by {
                    assert(s1[j].wf());
                }
            },
            _ => {
                assert forall|j: int| 0 <= j < s.len() implies (#[trigger] s[j]).wf() by {
                    assert(sc.enemies[j].wf());
                }
            },
        }
    }
    let after = after_turn(sc, lvl, i, time, frame_time, standing);
    assert forall|j: int| 0 <= j < after.enemies.len() implies (#[trigger] after.enemies[j]).wf() by {
        assert(s[j].wf());
    }
}

/// Any number of turns leaves every actor sound.
pub proof fn lemma_turns_keep_actors_sound(
    sc: Scene,
    lvl: Level,
    upto: int,
    time: u64,
    frame_time: u32,
    standing: int,
)
    requires
        0 <= upto <= sc.enemies.len(),
        all_wf(sc.enemies),
        sc.player.wf(),
    ensures
        all_wf(after_turns(sc, lvl, upto, time, frame_time, standing).enemies),
        after_turns(sc, lvl, upto, time, frame_time, standing).player.wf(),
        after_turns(sc, lvl, upto, time, frame_time, standing).enemies.len() == sc.enemies.len(),
        after_turns(sc, lvl, upto, time, frame_time, standing).player.hp <= sc.player.hp,
        after_turns(sc, lvl, upto, time, frame_time, standing).stats.grown_from(sc.stats),
    decreases upto,
{
    if upto > 0 {
        lemma_turns_keep_actors_sound(sc, lvl, upto - 1, time, frame_time, standing);
        lemma_turn_keeps_actors_sound(
            after_turns(sc, lvl, upto - 1, time, frame_time, standing),
            lvl,
            upto - 1,
            time,
            frame_time,
            standing,
        );
    }
}

/// Lets enemy `i` take its whole turn.
pub fn take_turn(
    enemies: &mut Vec<Enemy>,
    i: usize,
    player: &mut Player,
    lvl: &Level,
    stats: &mut GameStats,
    time: u64,
    frame_time: u32,
    standing: usize,
)
    requires
        i < old(enemies)@.len(),
        all_wf(old(enemies)@),
        old(player).wf(),
    ensures
        (Scene { enemies: final(enemies)@, player: *final(player), stats: *final(stats) })
            == after_turn(
            Scene { enemies: old(enemies)@, player: *old(player), stats: *old(stats) },
            *lvl,
            i as int,
            time,
            frame_time,
            standing as int,
        ),
        final(enemies)@.len() == old(enemies)@.len(),
        all_wf(final(enemies)@),
        final(player).wf(),
{
    let touched = match enemies[i].strategy {
        EnemyStrategy::VerticalPatrol => patrol_move(enemies, i, player, lvl, Axis::Y),
        EnemyStrategy::HorizontalPatrol => patrol_move(enemies, i, player, lvl, Axis::X),
        EnemyStrategy::FollowPlayer => chase_move(enemies, i, player, lvl, time),
        EnemyStrategy::Projectile => {
            projectile_move(enemies, i, lvl, stats, standing);
            false
        },
        EnemyStrategy::NoMovement => false,
    };
    settle(enemies, i, player, stats, touched, time, frame_time);
}

/// Whether the enemy has no hit points left.
pub fn is_dead(enemy: &Enemy) -> (dead: bool)
    ensures
        dead == (enemy.hp == 0),
{
    enemy.hp == 0
}

/// Whether the enemy leaves the map at the end of the frame: it is dead, or
/// its centre is outside the level.
pub open spec fn doomed(e: Enemy, lvl: Level) -> bool {
    e.hp == 0 || outside_level(e.pos, lvl)
}

/// The sequence with element `i` replaced by the last and the last dropped.
pub open spec fn swap_removed(s: Seq<Enemy>, i: int) -> Seq<Enemy> {
    s.update(i, s.last()).drop_last()
}

/// The enemies after those below index `upto` that must leave have been
/// swap-removed, highest index first.
pub open spec fn pruned_below(s: Seq<Enemy>, lvl: Level, upto: int) -> Seq<Enemy>
    decreases upto,
{
    if upto <= 0 {
        s
    } else if doomed(s[upto - 1], lvl) {
        pruned_below(swap_removed(s, upto - 1), lvl, upto - 1)
    } else {
        pruned_below(s, lvl, upto - 1)
    }
}

/// The enemies that stay on the map, in the order in which swap-removal
/// from the back leaves them.
pub open spec fn pruned(s: Seq<Enemy>, lvl: Level) -> Seq<Enemy> {
    pruned_below(s, lvl, s.len() as int)
}

/// Every enemy of the sequence is alive and inside the level.
pub open spec fn all_staying(s: Seq<Enemy>, lvl: Level) -> bool {
    forall|j: int| 0 <= j < s.len() ==> !doomed(#[trigger] s[j], lvl)
}

/// Removes every enemy that is dead or outside the level.  The survivors'
/// order may change.
pub fn prune(enemies: &mut Vec<Enemy>, lvl: &Level)
    requires
        all_wf(old(enemies)@),
    ensures
        final(enemies)@ == pruned(old(enemies)@, *lvl),
        all_staying(final(enemies)@, *lvl),
        all_wf(final(enemies)@),
{
    let mut i: usize = enemies.len();
    while i > 0
        invariant
            i <= enemies@.len(),
            all_wf(enemies@),
            pruned(old(enemies)@, *lvl) == pruned_below(enemies@, *lvl, i as int),
            forall|k: int| i <= k < enemies@.len() ==> !doomed(#[trigger] enemies@[k], *lvl),
        decreases i,
    {
        i = i - 1;
        if is_dead(&enemies[i]) || pos_out_of_lvl_bounds(enemies[i].pos, lvl) {
            let ghost before = enemies@;
            enemies.swap_remove(i);
            assert forall|j: int| 0 <= j < enemies@.len() implies (#[trigger] enemies@[j]).wf() by {
                assert(before[j].wf());
                assert(before.last().wf());
            }
            assert forall|k: int| i <= k < enemies@.len() implies !doomed(
                #[trigger] enemies@[k],
                *lvl,
            ) by {
                assert(!doomed(before[k + 1], *lvl));
                assert(!doomed(before.last(), *lvl));
            }
        }
    }
}

/// Swap-removing element `i` takes exactly one copy of it out of the
/// sequence.
proof fn lemma_swap_removed_count(s: Seq<Enemy>, i: int, e: Enemy)
    requires
        0 <= i < s.len(),
    ensures
        swap_removed(s, i).to_multiset().count(e) == s.to_multiset().count(e) - (if e == s[i] {
            1int
        } else {
            0int
        }),
{
    broadcast use vstd::multiset::group_multiset_axioms;

    let t = s.update(i, s.last());
    vstd::seq_lib::to_multiset_update(s, i, s.last());
    assert(t.drop_last() =~= t.remove(t.len() - 1));
    vstd::seq_lib::to_multiset_remove(t, t.len() - 1);
    vstd::seq_lib::to_multiset_contains(s, s[i]);
    vstd::seq_lib::to_multiset_contains(s, s.last());
    assert(s.contains(s[i]));
    assert(s.contains(s.last()));
}

/// Pruning from index `upto` down, when everything above is there to stay,
/// leaves exactly the enemies that are there to stay.
proof fn lemma_pruned_below_keeps_survivors(s: Seq<Enemy>, lvl: Level, upto: int, e: Enemy)
    requires
        0 <= upto <= s.len(),
        forall|k: int| upto <= k < s.len() ==> !doomed(#[trigger] s[k], lvl),
    ensures
        pruned_below(s, lvl, upto).to_multiset().count(e) == (if doomed(e, lvl) {
            0
        } else {
            s.to_multiset().count(e)
        }),
    decreases upto,
{
    if upto == 0 {
        vstd::seq_lib::to_multiset_contains(s, e);
        if doomed(e, lvl) && s.contains(e) {
            let k = choose|k: int| 0 <= k < s.len() && s[k] == e;
            assert(!doomed(s[k], lvl));
        }
    } else if doomed(s[upto - 1], lvl) {
        let t = swap_removed(s, upto - 1);
        assert forall|k: int| upto - 1 <= k < t.len() implies !doomed(#[trigger] t[k], lvl) by {
            if k == upto - 1 {
                assert(t[k] == s[s.len() - 1]);
            } else {
                assert(t[k] == s[k]);
            }
        }
        lemma_pruned_below_keeps_survivors(t, lvl, upto - 1, e);
        lemma_swap_removed_count(s, upto - 1, e);
    } else {
        lemma_pruned_below_keeps_survivors(s, lvl, upto - 1, e);
    }
}

/// Pruning removes every enemy that is dead or outside the level and keeps
/// every other, each as often as it was there; only their order may change.
pub proof fn lemma_prune_keeps_survivors(s: Seq<Enemy>, lvl: Level, e: Enemy)
    ensures
        pruned(s, lvl).to_multiset().count(e) == (if doomed(e, lvl) {
            0
        } else {
            s.to_multiset().count(e)
        }),
{
    lemma_pruned_below_keeps_survivors(s, lvl, s.len() as int, e);
}

/// The number of enemies that are no projectiles.
pub open spec fn spec_count_non_projectiles(s: Seq<Enemy>) -> nat {
    s.filter(|e: Enemy| !is_projectile(e)).len()
}

/// The number of objectives among the enemies.
pub open spec fn spec_count_nexus(s: Seq<Enemy>) -> nat {
    s.filter(|e: Enemy| is_nexus(e)).len()
}

/// Counts the enemies that are no projectiles.
pub fn count_non_projectiles(enemies: &Vec<Enemy>) -> (count: usize)
    ensures
        count == spec_count_non_projectiles(enemies@),
{
    let n = enemies.len();
    let mut count: usize = 0;
    let mut i: usize = 0;
    assert(enemies@.take(0) =~= Seq::<Enemy>::empty());
    while i < n
        invariant
            i <= n == enemies@.len(),
            count <= i,
            count == spec_count_non_projectiles(enemies@.take(i as int)),
        decreases n - i,
    {
        proof {
            assert(enemies@.take(i + 1) =~= enemies@.take(i as int).push(enemies@[i as int]));
            enemies@.take(i as int).lemma_filter_len_push(
                |e: Enemy| !is_projectile(e),
                enemies@[i as int],
            );
        }
        if enemies[i].strategy != EnemyStrategy::Projectile {
            count = count + 1;
        }
        i = i + 1;
    }
    assert(enemies@.take(n as int) =~= enemies@);
    count
}

/// Counts the objectives that are still on the map.  The level is won when
/// there are none.
pub fn count_nexus(enemies: &Vec<Enemy>) -> (count: usize)
    ensures
        count == spec_count_nexus(enemies@),
{
    let n = enemies.len();
    let objective = "Nexus".to_owned();
    let mut count: usize = 0;
    let mut i: usize = 0;
    assert(enemies@.take(0) =~= Seq::<Enemy>::empty());
    while i < n
        invariant
            i <= n == enemies@.len(),
            count <= i,
            objective@ == "Nexus"@,
            count == spec_count_nexus(enemies@.take(i as int)),
        decreases n - i,
    {
        proof {
            assert(enemies@.take(i + 1) =~= enemies@.take(i as int).push(enemies@[i as int]));
            enemies@.take(i as int).lemma_filter_len_push(|e: Enemy| is_nexus(e), enemies@[i as int]);
        }
        if enemies[i].name == objective {
            count = count + 1;
        }
        i = i + 1;
    }
    assert(enemies@.take(n as int) =~= enemies@);
    count
}

/// The scene after all enemies have taken their turns and those that are
/// dead or outside the level have been removed.
pub open spec fn after_enemies(sc: Scene, lvl: Level, time: u64, frame_time: u32) -> Scene {
    let fought = after_turns(
        sc,
        lvl,
        sc.enemies.len() as int,
        time,
        frame_time,
        spec_count_non_projectiles(sc.enemies) as int,
    );
    Scene { enemies: pruned(fought.enemies, lvl), ..fought }
}

/// Whether an enemy can be made from the definition: its box has area, it
/// has a frame to show, and its speeds can be reversed.
pub open spec fn definition_valid(def: EnemyDefinition) -> bool {
    &&& def.dim.x > 0
    &&& def.dim.y > 0
    &&& def.sprite.frames@.len() > 0
    &&& negatable(def.speed)
    &&& negatable(def.speed_solid)
}

/// Why no enemy called `name` can be made, if that is so.
pub open spec fn creation_error(defs: Seq<EnemyDefinition>, name: Seq<char>) -> Option<ConfigError> {
    match spec_find_enemy(defs, name) {
        None => Some(ConfigError::UnknownEnemy),
        Some(k) => if spec_strategy(defs[k].strategy@) is None {
            Some(ConfigError::InvalidStrategy)
        } else if !definition_valid(defs[k]) {
            Some(ConfigError::InvalidDefinition)
        } else {
            None
        },
    }
}

/// Frame `k` of the animation that a definition describes: a region of the
/// definition's texture as large as the enemy, drawn at the enemy's size.
pub open spec fn spec_frame(def: EnemyDefinition, k: int) -> Frame {
    Frame {
        texture: def.sprite.texture,
        source_rect: Rect {
            x: def.sprite.frames@[k].x,
            y: def.sprite.frames@[k].y,
            w: def.dim.x,
            h: def.dim.y,
        },
        dest_size: Vec2 { x: def.dim.x, y: def.dim.y },
    }
}

/// Whether `e` is the enemy that `def` describes, freshly placed at `pos`:
/// at full health, standing still, not chasing, its attack rested.
pub open spec fn created_from(e: Enemy, def: EnemyDefinition, pos: Vec2) -> bool {
    &&& e.name == def.name
    &&& e.pos == pos
    &&& e.dim == Vec2 { x: def.dim.x, y: def.dim.y }
    &&& e.sprite.frames@ == Seq::new(def.sprite.frames@.len(), |k: int| spec_frame(def, k))
    &&& e.sprite.frame_index == 0
    &&& e.sprite.fps == def.sprite.fps
    &&& e.sprite.time == 0
    &&& Some(e.strategy) == spec_strategy(def.strategy@)
    &&& e.hp == def.hp_max
    &&& e.hp_max == def.hp_max
    &&& e.dir == Vec2 { x: 0, y: 0 }
    &&& e.speed == def.speed
    &&& e.speed_solid == def.speed_solid
    &&& e.fog_of_war == def.fog_of_war
    &&& e.damage == def.damage
    &&& e.melee.name@ == "Attack"@
    &&& e.melee.cooldown == MELEE_COOLDOWN
    &&& e.melee.last_use is None
    &&& e.aggro_radius == AGGRO_RADIUS
    &&& e.aggro_cooldown is None
    &&& e.aggro_duration == AGGRO_DURATION
}

/// Makes an enemy of the kind called `name` at `pos`.  Fails if no
/// definition has that name, if the definition's strategy is not one of the
/// five known names, or if the definition describes an enemy without
/// extent, without frames, or with a speed that cannot be reversed.
pub fn create_enemy(name: String, pos: Vec2, res: &Resources) -> (r: Result<Enemy, ConfigError>)
    ensures
        match r {
            Ok(e) => creation_error(res.enemy_definitions@, name@) is None && created_from(
                e,
                res.enemy_definitions@[spec_find_enemy(res.enemy_definitions@, name@).unwrap()],
                pos,
            ) && e.wf(),
            Err(error) => creation_error(res.enemy_definitions@, name@) == Some(error),
        },
{
    let k = match res.find_enemy(&name) {
        Some(k) => k,
        None => {
            return Err(ConfigError::UnknownEnemy);
        },
    };
    let def = &res.enemy_definitions[k];
    let strategy = match parse_strategy(&def.strategy) {
        Some(strategy) => strategy,
        None => {
            return Err(ConfigError::InvalidStrategy);
        },
    };
    let count = def.sprite.frames.len();
    if def.dim.x <= 0 || def.dim.y <= 0 || count == 0 || def.speed == i32::MIN || def.speed_solid
        == i32::MIN {
        return Err(ConfigError::InvalidDefinition);
    }
    let dim = Vec2 { x: def.dim.x, y: def.dim.y };
    let mut frames: Vec<Frame> = Vec::new();
    let mut j: usize = 0;
    while j < count
        invariant
            j <= count == def.sprite.frames@.len(),
            dim == (Vec2 { x: def.dim.x, y: def.dim.y }),
            frames@ == Seq::new(j as nat, |k: int| spec_frame(*def, k)),
        decreases count - j,
    {
        frames.push(
            Frame {
                texture: def.sprite.texture.clone(),
                dest_size: dim,
                source_rect: Rect {
                    x: def.sprite.frames[j].x,
                    y: def.sprite.frames[j].y,
                    w: dim.x,
                    h: dim.y,
                },
            },
        );
        j = j + 1;
        assert(frames@ =~= Seq::new(j as nat, |k: int| spec_frame(*def, k)));
    }
    Ok(
        Enemy {
            name: def.name.clone(),
            speed: def.speed,
            speed_solid: def.speed_solid,
            strategy,
            pos,
            hp: def.hp_max,
            hp_max: def.hp_max,
            damage: def.damage,
            melee: Ability { name: "Attack".to_owned(), cooldown: MELEE_COOLDOWN, last_use: None },
            dim,
            sprite: AnimatedSprite { frames, fps: def.sprite.fps, frame_index: 0, time: 0 },
            dir: Vec2 { x: 0, y: 0 },
            fog_of_war: def.fog_of_war,
            aggro_radius: AGGRO_RADIUS,
            aggro_cooldown: None,
            aggro_duration: AGGRO_DURATION,
        },
    )
}

impl Game {
    /// Runs the enemies' part of a frame at clock reading `time`, with
    /// `frame_time` milliseconds since the last frame: every enemy takes its
    /// turn in list order, then the dead and those outside the level leave.
    pub fn update_enemies(&mut self, time: u64, frame_time: u32)
        requires
            old(self).wf(),
        ensures
            final(self).scene() == after_enemies(old(self).scene(), old(self).lvl, time, frame_time),
            final(self).lvl == old(self).lvl,
            final(self).world == old(self).world,
            final(self).controls == old(self).controls,
            final(self).camera == old(self).camera,
            final(self).stats.grown_from(old(self).stats),
            final(self).player.hp <= old(self).player.hp,
            all_staying(final(self).enemies@, final(self).lvl),
            final(self).wf(),
    {
        proof {
            lemma_turns_keep_actors_sound(
                self.scene(),
                self.lvl,
                self.enemies@.len() as int,
                time,
                frame_time,
                spec_count_non_projectiles(self.enemies@) as int,
            );
        }
        let standing = count_non_projectiles(&self.enemies);
        let n = self.enemies.len();
        let mut i: usize = 0;
        while i < n
            invariant
                i <= n == self.enemies@.len(),
                n == old(self).enemies@.len(),
                self.wf(),
                self.lvl == old(self).lvl,
                self.world == old(self).world,
                self.controls == old(self).controls,
                self.camera == old(self).camera,
                standing == spec_count_non_projectiles(old(self).enemies@),
                self.scene() == after_turns(
                    old(self).scene(),
                    old(self).lvl,
                    i as int,
                    time,
                    frame_time,
                    standing as int,
                ),
            decreases n - i,
        {
            take_turn(
                &mut self.enemies,
                i,
                &mut self.player,
                &self.lvl,
                &mut self.stats,
                time,
                frame_time,
                standing,
            );
            i = i + 1;
        }
        prune(&mut self.enemies, &self.lvl);
    }
}

} // verus!