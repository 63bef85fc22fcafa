//! The whole world of one level and the order in which a frame updates it.

use vstd::prelude::*;
use vstd::string::StringExecFns;
use crate::camera::GameCamera;
use crate::controls::Controls;
use crate::enemy::{
    after_enemies, all_staying, all_wf, create_enemy, created_from, creation_error, Enemy, Scene,
};
use crate::error::ConfigError;
use crate::fixed::{direction, spec_direction, Vec2};
use crate::gfx::{Frame, Rect, StaticSprite};
use crate::level::{rows_of, tiles_of, Level, World, TILE_SIZE};
use crate::player::{after_player_move, Ability, Inventory, Player};
use crate::resources::{spec_find_enemy, LevelDefinition, LevelEnemyDefinition, Resources};

verus! {

/// Totals for the summary shown after a level.  None of them ever
/// decreases; each is held at the largest value its type can store.
#[derive(Clone, Copy, Debug, PartialEq, Eq, Structural)]
pub struct GameStats {
    pub damage_dealt: usize,
    pub damage_received: usize,
    pub enemies_killed: usize,
    /// Milliseconds played.
    pub time_spent: u64,
}

/// One level in play.
pub struct Game {
    pub lvl: Level,
    pub player: Player,
    pub enemies: Vec<Enemy>,
    pub world: World,
    pub controls: Controls,
    pub camera: GameCamera,
    pub stats: GameStats,
}

/// The player's speed at the start of a level (3 pixels per frame).
pub const PLAYER_SPEED: i32 = 768;

/// How many tiles far the player sees.
pub const PLAYER_LIGHT_RADIUS: usize = 4;

/// The player's hit points at the start of a level.
pub const PLAYER_HP: usize = 100;

/// Rest between two rockets, in milliseconds.
pub const Q_COOLDOWN: u64 = 4000;

/// Rest between two shots, in milliseconds.
pub const AUTO_COOLDOWN: u64 = 700;

/// Height of the status bar below the view (64 pixels).
pub const HUD_HEIGHT: i32 = 16384;

/// Where the player's image starts within its texture (64 pixels in).
pub const PLAYER_SPRITE_OFFSET: i32 = 16384;

impl GameStats {
    /// Whether these totals can have grown out of `before`: none of them is
    /// smaller.
    pub open spec fn grown_from(&self, before: GameStats) -> bool {
        &&& self.damage_dealt >= before.damage_dealt
        &&& self.damage_received >= before.damage_received
        &&& self.enemies_killed >= before.enemies_killed
        &&& self.time_spent >= before.time_spent
    }

    /// Adds `elapsed` milliseconds to the time played.
    pub fn spend(&mut self, elapsed: u64)
        ensures
            *final(self) == (GameStats {
                time_spent: old(self).time_spent.saturating_add(elapsed),
                ..*old(self)
            }),
    {
        self.time_spent = self.time_spent.saturating_add(elapsed);
    }
}

/// Whether `p` lies within the box of the given centre and extent, borders
/// included.  Both sides are doubled so that odd extents need no halving.
pub open spec fn box_contains(center: Vec2, dim: Vec2, p: Vec2) -> bool {
    &&& 2 * center.x - dim.x <= 2 * p.x <= 2 * center.x + dim.x
    &&& 2 * center.y - dim.y <= 2 * p.y <= 2 * center.y + dim.y
}

/// The first enemy at or after index `from` whose box contains `p`.
pub open spec fn enemy_at_from(s: Seq<Enemy>, p: Vec2, from: int) -> Option<int>
    decreases s.len() - from,
{
    if from >= s.len() {
        None
    } else if box_contains(s[from].pos, s[from].dim, p) {
        Some(from)
    } else {
        enemy_at_from(s, p, from + 1)
    }
}

/// The first enemy, in list order, whose box contains `p`.
pub open spec fn enemy_at(s: Seq<Enemy>, p: Vec2) -> Option<int> {
    enemy_at_from(s, p, 0)
}

/// `enemy_at_from` names the least index at or after `from` whose box
/// contains `p`.
pub proof fn lemma_enemy_at(s: Seq<Enemy>, p: Vec2, from: int)
    requires
        0 <= from,
    ensures
        match enemy_at_from(s, p, from) {
            Some(k) => from <= k < s.len() && box_contains(s[k].pos, s[k].dim, p) && forall|j: int|
                from <= j < k ==> !box_contains(s[j].pos, s[j].dim, p),
            None => forall|j: int| from <= j < s.len() ==> !box_contains(s[j].pos, s[j].dim, p),
        },
    decreases s.len() - from,
{
    if from < s.len() && !box_contains(s[from].pos, s[from].dim, p) {
        lemma_enemy_at(s, p, from + 1);
    }
}

/// Whether `e` is a projectile of the kind called `name`, just launched
/// from `from` toward `toward`.
pub open spec fn launched(e: Enemy, res: Resources, name: Seq<char>, from: Vec2, toward: Vec2) -> bool {
    &&& creation_error(res.enemy_definitions@, name) is None
    &&& created_from(
        Enemy { dir: Vec2 { x: 0, y: 0 }, ..e },
        res.enemy_definitions@[spec_find_enemy(res.enemy_definitions@, name).unwrap()],
        from,
    )
    &&& e.dir == spec_direction(from, toward)
    &&& e.wf()
}

/// The text of a level given row by row: every row followed by a line
/// break.
pub open spec fn level_text(rows: Seq<String>) -> Seq<char>
    decreases rows.len(),
{
    if rows.len() == 0 {
        Seq::empty()
    } else {
        level_text(rows.drop_last()) + rows.last()@ + seq!['\n']
    }
}

/// The first reason why one of the enemies below index `upto` cannot be
/// made, if there is one.
pub open spec fn spawn_error(spawns: Seq<LevelEnemyDefinition>, res: Resources, upto: int) -> Option<
    ConfigError,
>
    decreases upto,
{
    if upto <= 0 {
        None
    } else if spawn_error(spawns, res, upto - 1) is Some {
        spawn_error(spawns, res, upto - 1)
    } else {
        creation_error(res.enemy_definitions@, spawns[upto - 1].name@)
    }
}

/// Why no game can be made from a level definition, if that is so.
pub open spec fn init_error(lvl_def: LevelDefinition, res: Resources) -> Option<ConfigError> {
    let text = level_text(lvl_def.tiles@);
    if rows_of(text) == 0 || tiles_of(text).len() % rows_of(text) != 0 {
        Some(ConfigError::MalformedLevel)
    } else if (tiles_of(text).len() / rows_of(text)) * TILE_SIZE > i32::MAX || rows_of(text)
        * TILE_SIZE > i32::MAX {
        Some(ConfigError::LevelTooLarge)
    } else {
        spawn_error(lvl_def.enemies@, res, lvl_def.enemies@.len() as int)
    }
}

/// Whether `p` is the player as a level begins, placed at `pos`.
pub open spec fn fresh_player(p: Player, pos: Vec2) -> bool {
    &&& p.pos == pos
    &&& p.target_pos is None
    &&& p.dim == Vec2 { x: TILE_SIZE, y: TILE_SIZE }
    &&& p.light_radius == PLAYER_LIGHT_RADIUS
    &&& p.speed == PLAYER_SPEED
    &&& p.hp == PLAYER_HP
    &&& p.hp_max == PLAYER_HP
    &&& p.q.cooldown == Q_COOLDOWN
    &&& p.q.last_use is None
    &&& p.q.name@ == "Q"@
    &&& p.auto.cooldown == AUTO_COOLDOWN
    &&& p.auto.last_use is None
    &&& p.auto.name@ == "AUTO"@
    &&& p.sprite.frame.texture@ == "sprites_for_para.png"@
    &&& p.sprite.frame.source_rect == Rect { x: PLAYER_SPRITE_OFFSET, y: 0, w: TILE_SIZE, h: TILE_SIZE }
    &&& p.sprite.frame.dest_size == Vec2 { x: TILE_SIZE, y: TILE_SIZE }
    &&& p.inventory.amulet is None
    &&& p.inventory.head is None
    &&& p.inventory.body is None
    &&& p.inventory.arm1 is None
    &&& p.inventory.arm2 is None
    &&& p.inventory.ring1 is None
    &&& p.inventory.ring2 is None
    &&& p.inventory.belt is None
    &&& p.inventory.foot is None
}

/// Whether `g` is the game that a level definition describes, before its
/// first frame, shown on a screen of size `screen`.
pub open spec fn fresh_game(g: Game, lvl_def: LevelDefinition, res: Resources, screen: Vec2) -> bool {
    let text = level_text(lvl_def.tiles@);
    &&& g.lvl.tiles@ == tiles_of(text)
    &&& g.lvl.height == rows_of(text)
    &&& g.lvl.width == tiles_of(text).len() / rows_of(text)
    &&& g.lvl.rooms@.len() == 0
    &&& g.world.dim == Vec2 { x: (g.lvl.width * TILE_SIZE) as i32, y: (g.lvl.height * TILE_SIZE) as i32 }
    &&& fresh_player(g.player, Vec2 { x: lvl_def.player.x, y: lvl_def.player.y })
    &&& g.enemies@.len() == lvl_def.enemies@.len()
    &&& forall|k: int|
        0 <= k < g.enemies@.len() ==> created_from(
            #[trigger] g.enemies@[k],
            res.enemy_definitions@[spec_find_enemy(
                res.enemy_definitions@,
                lvl_def.enemies@[k].name@,
            ).unwrap()],
            Vec2 { x: lvl_def.enemies@[k].x, y: lvl_def.enemies@[k].y },
        )
    &&& g.controls == Controls {
        is_q: false,
        is_up: false,
        is_down: false,
        is_left: false,
        is_right: false,
        mouse_pos: Vec2 { x: 0, y: 0 },
        is_left_mouse_click: false,
        is_right_mouse_click: false,
        is_right_mouse_down: false,
    }
    &&& g.camera == GameCamera::spec_framing(g.player.pos, g.world.dim, screen, HUD_HEIGHT as int)
    &&& g.stats == GameStats { damage_dealt: 0, damage_received: 0, enemies_killed: 0, time_spent: 0 }
}

/// Joins the rows of a level into one text.
pub fn join_rows(rows: &Vec<String>) -> (text: String)
    ensures
        text@ == level_text(rows@),
{
    let mut text = String::new();
    let n = rows.len();
    let mut i: usize = 0;
    assert(rows@.take(0) =~= Seq::<String>::empty());
    while i < n
        invariant
            i <= n == rows@.len(),
            text@ == level_text(rows@.take(i as int)),
        decreases n - i,
    {
        proof {
            reveal_strlit("\n");
            assert(rows@.take(i + 1).drop_last() =~= rows@.take(i as int));
            assert("\n"@ =~= seq!['\n']);
        }
        text.append(rows[i].as_str());
        text.append("\n");
        i = i + 1;
    }
    assert(rows@.take(n as int) =~= rows@);
    text
}

/// Builds the game for a level: the grid from the level's rows, the player
/// at its spawn point, and every enemy the level lists.  Fails if the rows
/// are uneven or missing, if the level is too large, or if an enemy cannot
/// be made; the first enemy in list order that cannot decides the error.
pub fn init_level(lvl_def: &LevelDefinition, res: &Resources, screen: Vec2) -> (r: Result<
    Game,
    ConfigError,
>)
    ensures
        match r {
            Ok(g) => init_error(*lvl_def, *res) is None && fresh_game(g, *lvl_def, *res, screen)
                && g.wf(),
            Err(e) => init_error(*lvl_def, *res) == Some(e),
        },
{
    let text = join_rows(&lvl_def.tiles);
    let lvl = match Level::load_from_string(text.as_str()) {
        Ok(lvl) => lvl,
        Err(e) => {
            return Err(e);
        },
    };
    let world = match World::from_level(&lvl) {
        Some(world) => world,
        None => {
            return Err(ConfigError::LevelTooLarge);
        },
    };
    let mut enemies: Vec<Enemy> = Vec::new();
    let n = lvl_def.enemies.len();
    let mut k: usize = 0;
    while k < n
        invariant
            k <= n == lvl_def.enemies@.len(),
            enemies@.len() == k,
            all_wf(enemies@),
            init_error(*lvl_def, *res) == spawn_error(lvl_def.enemies@, *res, n as int),
            spawn_error(lvl_def.enemies@, *res, k as int) is None,
            forall|j: int|
                0 <= j < k ==> created_from(
                    #[trigger] enemies@[j],
                    res.enemy_definitions@[spec_find_enemy(
                        res.enemy_definitions@,
                        lvl_def.enemies@[j].name@,
                    ).unwrap()],
                    Vec2 { x: lvl_def.enemies@[j].x, y: lvl_def.enemies@[j].y },
                ),
        decreases n - k,
    {
        let spawn = &lvl_def.enemies[k];
        let enemy = match create_enemy(spawn.name.clone(), Vec2 { x: spawn.x, y: spawn.y }, res) {
            Ok(enemy) => enemy,
            Err(e) => {
                proof {
                    assert(spawn_error(lvl_def.enemies@, *res, k as int) is None);
                    assert(spawn_error(lvl_def.enemies@, *res, k + 1) == Some(e));
                    lemma_spawn_error_stays(lvl_def.enemies@, *res, k + 1, n as int);
                }
                return Err(e);
            },
        };
        enemies.push(enemy);
        k = k + 1;
    }
    let pos = Vec2 { x: lvl_def.player.x, y: lvl_def.player.y };
    let player = Player {
        pos,
        dim: Vec2 { x: TILE_SIZE, y: TILE_SIZE },
        target_pos: None,
        speed: PLAYER_SPEED,
        light_radius: PLAYER_LIGHT_RADIUS,
        hp: PLAYER_HP,
        hp_max: PLAYER_HP,
        sprite: StaticSprite {
            frame: Frame {
                texture: "sprites_for_para.png".to_owned(),
                source_rect: Rect { x: PLAYER_SPRITE_OFFSET, y: 0, w: TILE_SIZE, h: TILE_SIZE },
                dest_size: Vec2 { x: TILE_SIZE, y: TILE_SIZE },
            },
        },
        inventory: Inventory {
            amulet: None,
            head: None,
            body: None,
            arm1: None,
            arm2: None,
            ring1: None,
            ring2: None,
            belt: None,
            foot: None,
        },
        q: Ability { cooldown: Q_COOLDOWN, last_use: None, name: "Q".to_owned() },
        auto: Ability { cooldown: AUTO_COOLDOWN, last_use: None, name: "AUTO".to_owned() },
    };
    let camera = GameCamera::framing(pos, world.dim, screen, HUD_HEIGHT);
    Ok(
        Game {
            lvl,
            player,
            enemies,
            world,
            controls: Controls {
                is_q: false,
                is_up: false,
                is_down: false,
                is_left: false,
                is_right: false,
                mouse_pos: Vec2 { x: 0, y: 0 },
                is_left_mouse_click: false,
                is_right_mouse_click: false,
                is_right_mouse_down: false,
            },
            camera,
            stats: GameStats { damage_dealt: 0, damage_received: 0, enemies_killed: 0, time_spent: 0 },
        },
    )
}

/// Once an enemy cannot be made, the later ones no longer matter.
proof fn lemma_spawn_error_stays(spawns: Seq<LevelEnemyDefinition>, res: Resources, failed: int, upto: int)
    requires
        0 < failed <= upto,
        spawn_error(spawns, res, failed) is Some,
    ensures
        spawn_error(spawns, res, upto) == spawn_error(spawns, res, failed),
    decreases upto - failed,
{
    if failed < upto {
        lemma_spawn_error_stays(spawns, res, failed, upto - 1);
    }
}

/// The player with the given ability stamped as used at `time`.
pub open spec fn with_q_used(p: Player, time: u64) -> Player {
    Player { q: Ability { last_use: Some(time), ..p.q }, ..p }
}

/// The player with its shot stamped as used at `time`.
pub open spec fn with_auto_used(p: Player, time: u64) -> Player {
    Player { auto: Ability { last_use: Some(time), ..p.auto }, ..p }
}

/// Whether `new` is what the player's part of a frame makes of `old` at
/// clock reading `time`.  A rocket is launched toward the pointer if the
/// key is down and the rocket has rested.  A right click on an enemy
/// launches a shot at it if the shot has rested, and in any case makes the
/// player stand and forget its target; without such a click the player
/// moves.  Launched projectiles join the end of the enemy list, the rocket
/// first.
pub open spec fn player_phase(old: Game, new: Game, res: Resources, time: u64) -> bool {
    let n = old.enemies@.len() as int;
    let rocket = if old.fires_q(time) {
        1int
    } else {
        0int
    };
    let shot = if old.fires_auto(time) {
        1int
    } else {
        0int
    };
    let armed = if old.fires_q(time) {
        with_q_used(old.player, time)
    } else {
        old.player
    };
    &&& new.lvl == old.lvl
    &&& new.world == old.world
    &&& new.controls == old.controls
    &&& new.camera == old.camera
    &&& new.stats == old.stats
    &&& new.enemies@.len() == n + rocket + shot
    &&& new.enemies@.subrange(0, n) == old.enemies@
    &&& old.fires_q(time) ==> launched(
        new.enemies@[n],
        res,
        "Rocket"@,
        old.player.pos,
        old.controls.mouse_pos,
    )
    &&& old.fires_auto(time) ==> launched(
        new.enemies@[n + rocket],
        res,
        "Shot"@,
        old.player.pos,
        old.enemies@[old.aimed().unwrap()].pos,
    )
    &&& new.player == (if old.aimed() is Some {
        let standing = Player { target_pos: None, ..armed };
        if old.fires_auto(time) {
            with_auto_used(standing, time)
        } else {
            standing
        }
    } else {
        after_player_move(armed, old.controls, new.enemies@, old.lvl)
    })
}

/// Why the player's part of a frame cannot run, if that is so: a
/// projectile is due that cannot be made.  The rocket is looked at first.
pub open spec fn launch_error(g: Game, res: Resources, time: u64) -> Option<ConfigError> {
    if g.fires_q(time) && creation_error(res.enemy_definitions@, "Rocket"@) is Some {
        creation_error(res.enemy_definitions@, "Rocket"@)
    } else if g.fires_auto(time) {
        creation_error(res.enemy_definitions@, "Shot"@)
    } else {
        None
    }
}

/// Whether `new` is what the rest of a frame makes of `mid`, the game as
/// the player's part left it: the enemies take their turns and the fallen
/// leave, so that all who remain are alive and inside the level; then the
/// fog follows the player, then the camera does.
pub open spec fn world_phase(mid: Game, new: Game, time: u64, frame_time: u32) -> bool {
    &&& new.scene() == after_enemies(mid.scene(), mid.lvl, time, frame_time)
    &&& new.stats.grown_from(mid.stats)
    &&& new.player.hp <= mid.player.hp
    &&& all_staying(new.enemies@, mid.lvl)
    &&& new.lvl.width == mid.lvl.width
    &&& new.lvl.height == mid.lvl.height
    &&& new.lvl.rooms == mid.lvl.rooms
    &&& new.lvl.tiles@ == mid.lvl.spec_fog_after(new.player.pos, new.player.light_radius)
    &&& new.world == mid.world
    &&& new.controls == mid.controls
    &&& new.camera == mid.camera.spec_after(new.player.pos, mid.world.dim)
}

impl Game {
    /// The level's tiles fill its grid, and the player and every enemy are
    /// well formed.
    pub open spec fn wf(&self) -> bool {
        self.lvl.wf() && self.player.wf() && all_wf(self.enemies@)
    }

    /// The part of the world that fights: enemies, player and totals.
    pub open spec fn scene(&self) -> Scene {
        Scene { enemies: self.enemies@, player: self.player, stats: self.stats }
    }

    /// Whether a rocket is launched at `time`.
    pub open spec fn fires_q(&self, time: u64) -> bool {
        self.controls.is_q && !self.player.q.spec_is_on_cooldown(time)
    }

    /// The enemy that a right click selects this frame.
    pub open spec fn aimed(&self) -> Option<int> {
        if self.controls.is_right_mouse_click {
            enemy_at(self.enemies@, self.controls.mouse_pos)
        } else {
            None
        }
    }

    /// Whether a shot is launched at `time`.
    pub open spec fn fires_auto(&self, time: u64) -> bool {
        self.aimed() is Some && !self.player.auto.spec_is_on_cooldown(time)
    }

    /// Puts an enemy on the map, behind all others.
    pub fn add_enemy(&mut self, enemy: Enemy)
        requires
            old(self).wf(),
            enemy.wf(),
        ensures
            final(self).enemies@ == old(self).enemies@.push(enemy),
            final(self).lvl == old(self).lvl,
            final(self).player == old(self).player,
            final(self).world == old(self).world,
            final(self).controls == old(self).controls,
            final(self).camera == old(self).camera,
            final(self).stats == old(self).stats,
            final(self).wf(),
    {
        self.enemies.push(enemy);
    }

    /// Finds the first enemy, projectiles included, whose box contains `pos`.
    pub fn get_enemy_index_at_pos(&self, pos: Vec2) -> (found: Option<usize>)
        ensures
            match found {
                Some(k) => enemy_at(self.enemies@, pos) == Some(k as int) && k < self.enemies@.len(),
                None => enemy_at(self.enemies@, pos) is None,
            },
    {
        let n = self.enemies.len();
        let mut i: usize = 0;
        while i < n
            invariant
                i <= n == self.enemies@.len(),
                enemy_at(self.enemies@, pos) == enemy_at_from(self.enemies@, pos, i as int),
            decreases n - i,
        {
            let c = self.enemies[i].pos;
            let d = self.enemies[i].dim;
            let px: i64 = 2 * (pos.x as i64);
            let py: i64 = 2 * (pos.y as i64);
            let cx: i64 = 2 * (c.x as i64);
            let cy: i64 = 2 * (c.y as i64);
            if cx - d.x as i64 <= px && px <= cx + d.x as i64 && cy - d.y as i64 <= py && py <= cy
                + d.y as i64 {
                return Some(i);
            }
            i = i + 1;
        }
        None
    }

    /// Lets the fog of war follow the player.
    pub fn update_level(&mut self)
        requires
            old(self).wf(),
        ensures
            final(self).lvl.width == old(self).lvl.width,
            final(self).lvl.height == old(self).lvl.height,
            final(self).lvl.rooms == old(self).lvl.rooms,
            final(self).lvl.tiles@ == old(self).lvl.spec_fog_after(
                old(self).player.pos,
                old(self).player.light_radius,
            ),
            final(self).player == old(self).player,
            final(self).enemies == old(self).enemies,
            final(self).world == old(self).world,
            final(self).controls == old(self).controls,
            final(self).camera == old(self).camera,
            final(self).stats == old(self).stats,
            final(self).wf(),
    {
        self.lvl.update_fog(self.player.pos, self.player.light_radius);
    }

    /// Runs the player's part of a frame: abilities first, then movement.
    /// When a projectile is due that cannot be made, nothing changes.
    pub fn update_abilities_and_player(&mut self, res: &Resources, time: u64) -> (r: Result<
        (),
        ConfigError,
    >)
        requires
            old(self).wf(),
        ensures
            match r {
                Ok(_) => launch_error(*old(self), *res, time) is None && player_phase(
                    *old(self),
                    *final(self),
                    *res,
                    time,
                ),
                Err(e) => launch_error(*old(self), *res, time) == Some(e) && *final(self) == *old(
                    self,
                ),
            },
            final(self).wf(),
    {
        let fire_q = self.controls.is_q && !self.player.q.is_on_cooldown(time);
        let aimed = if self.controls.is_right_mouse_click {
            self.get_enemy_index_at_pos(self.controls.mouse_pos)
        } else {
            None
        };
        let fire_auto = aimed.is_some() && !self.player.auto.is_on_cooldown(time);
        let from = self.player.pos;
        let rocket = if fire_q {
            match create_enemy("Rocket".to_owned(), from, res) {
                Ok(mut rocket) => {
                    rocket.dir = direction(from, self.controls.mouse_pos);
                    Some(rocket)
                },
                Err(e) => {
                    return Err(e);
                },
            }
        } else {
            None
        };
        let shot = match aimed {
            Some(k) => {
                if fire_auto {
                    match create_enemy("Shot".to_owned(), from, res) {
                        Ok(mut shot) => {
                            shot.dir = direction(from, self.enemies[k].pos);
                            Some(shot)
                        },
                        Err(e) => {
                            return Err(e);
                        },
                    }
                } else {
                    None
                }
            },
            None => None,
        };
        match rocket {
            Some(rocket) => {
                self.enemies.push(rocket);
                self.player.q.last_use = Some(time);
            },
            None => {},
        }
        match shot {
            Some(shot) => {
                self.enemies.push(shot);
                self.player.auto.last_use = Some(time);
            },
            None => {},
        }
        assert(self.enemies@.subrange(0, old(self).enemies@.len() as int) =~= old(self).enemies@);
        if aimed.is_some() {
            self.player.target_pos = None;
        } else {
            self.update_player();
        }
        Ok(())
    }

    /// Runs one frame at clock reading `time`, `frame_time` milliseconds
    /// after the last: first the player, then the enemies, then the fog,
    /// then the camera.  When a projectile is due that cannot be made, the
    /// frame does not run and nothing changes.
    pub fn update(&mut self, res: &Resources, time: u64, frame_time: u32) -> (r: Result<
        (),
        ConfigError,
    >)
        requires
            old(self).wf(),
        ensures
            match r {
                Ok(_) => launch_error(*old(self), *res, time) is None && exists|mid: Game|
                    #[trigger] player_phase(*old(self), mid, *res, time) && world_phase(
                        mid,
                        *final(self),
                        time,
                        frame_time,
                    ),
                Err(e) => launch_error(*old(self), *res, time) == Some(e) && *final(self) == *old(
                    self,
                ),
            },
            final(self).wf(),
    {
        match self.update_abilities_and_player(res, time) {
            Ok(_) => {},
            Err(e) => {
                return Err(e);
            },
        }
        let ghost mid = *self;
        self.update_enemies(time, frame_time);
        self.update_level();
        self.update_camera();
        assert(world_phase(mid, *self, time, frame_time));
        Ok(())
    }

    /// Whether the player has been defeated.
    pub fn is_lost(&self) -> (lost: bool)
        ensures
            lost == (self.player.hp == 0),
    {
        self.player.hp == 0
    }
}

} // verus!
