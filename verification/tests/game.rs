use fog_arena::camera::GameCamera;
use fog_arena::controls::Controls;
use fog_arena::enemy::{count_nexus, create_enemy, EnemyStrategy};
use fog_arena::error::ConfigError;
use fog_arena::fixed::Vec2;
use fog_arena::game::{
    init_level, join_rows, Game, GameStats, AUTO_COOLDOWN, HUD_HEIGHT, PLAYER_HP,
    PLAYER_LIGHT_RADIUS, PLAYER_SPEED, PLAYER_SPRITE_OFFSET, Q_COOLDOWN,
};
use fog_arena::gfx::Rect;
use fog_arena::level::{FogLevel, World, TILE_SIZE};
use fog_arena::resources::{
    EnemyDefinition, EnemySpriteDefinition, LevelDefinition, LevelEnemyDefinition, Point, Resources,
};

fn v(x: i32, y: i32) -> Vec2 {
    Vec2 { x, y }
}

fn def(
    name: &str,
    strategy: &str,
    speed: i32,
    dim: i32,
    hp_max: usize,
    damage: usize,
) -> EnemyDefinition {
    EnemyDefinition {
        name: name.to_string(),
        strategy: strategy.to_string(),
        speed,
        speed_solid: if strategy == "projectile" { speed } else { 0 },
        sprite: EnemySpriteDefinition {
            texture: "e.png".to_string(),
            frames: vec![Point { x: 0, y: 0 }],
            fps: 1,
        },
        dim: Point { x: dim, y: dim },
        fog_of_war: false,
        hp_max,
        damage,
    }
}

fn resources() -> Resources {
    Resources {
        enemy_definitions: vec![
            def("Walker", "horizontalPatrol", 512, 4096, 30, 5),
            def("Hunter", "followPlayer", 512, 4096, 40, 7),
            def("Post", "noMovement", 0, 4096, 100, 0),
            def("Nexus", "noMovement", 0, 4096, 20, 0),
            def("Rocket", "projectile", 1024, 2048, 1, 7),
            def("Shot", "projectile", 2048, 1024, 1, 3),
            def("Odd", "teleport", 0, 4096, 1, 0),
        ],
        tile_defintions: vec![],
    }
}

fn without(res: Resources, name: &str) -> Resources {
    Resources {
        enemy_definitions: res.enemy_definitions.into_iter().filter(|d| d.name != name).collect(),
        tile_defintions: res.tile_defintions,
    }
}

fn level_def(rows: &[&str], player: Vec2, enemies: &[(&str, i32, i32)]) -> LevelDefinition {
    LevelDefinition {
        tiles: rows.iter().map(|r| r.to_string()).collect(),
        player: Point { x: player.x, y: player.y },
        enemies: enemies
            .iter()
            .map(|(name, x, y)| LevelEnemyDefinition { name: name.to_string(), x: *x, y: *y })
            .collect(),
    }
}

fn game_on(rows: &[&str], player: Vec2, enemies: &[(&str, i32, i32)]) -> Game {
    init_level(&level_def(rows, player, enemies), &resources(), v(100_000, 100_000)).unwrap()
}

fn open_game(player: Vec2, enemies: &[(&str, i32, i32)]) -> Game {
    let row = "c".repeat(20);
    let rows: Vec<&str> = (0..20).map(|_| row.as_str()).collect();
    game_on(&rows, player, enemies)
}

fn idle() -> Controls {
    Controls {
        is_q: false,
        is_up: false,
        is_down: false,
        is_left: false,
        is_right: false,
        mouse_pos: v(0, 0),
        is_left_mouse_click: false,
        is_right_mouse_click: false,
        is_right_mouse_down: false,
    }
}

fn centre(x: i32, y: i32) -> Vec2 {
    v(x * TILE_SIZE + TILE_SIZE / 2, y * TILE_SIZE + TILE_SIZE / 2)
}

fn fog_at(g: &Game, x: usize, y: usize) -> FogLevel {
    g.lvl.tiles[y * g.lvl.width + x].fog
}

#[test]
fn join_rows_ends_every_row_with_a_line_break() {
    assert_eq!(join_rows(&vec!["ab".to_string(), "cd".to_string()]), "ab\ncd\n");
    assert_eq!(join_rows(&vec!["".to_string()]), "\n");
    assert_eq!(join_rows(&vec![]), "");
}

#[test]
fn init_level_builds_the_whole_game() {
    let d = level_def(&["ccc", "cac"], v(100, 200), &[("Walker", 1, 2), ("Nexus", 3, 4)]);
    let g = init_level(&d, &resources(), v(20_000, 36_384)).unwrap();
    assert_eq!((g.lvl.width, g.lvl.height), (3, 2));
    let chars: String = g.lvl.tiles.iter().map(|t| t.ch).collect();
    assert_eq!(chars, "ccccac");
    assert!(g.lvl.tiles.iter().all(|t| t.fog == FogLevel::Opaque));
    assert_eq!(g.world, World { dim: v(3 * TILE_SIZE, 2 * TILE_SIZE) });
    assert_eq!(g.player.pos, v(100, 200));
    assert_eq!(g.player.dim, v(TILE_SIZE, TILE_SIZE));
    assert_eq!(g.player.target_pos, None);
    assert_eq!(g.player.speed, 3 * 256);
    assert_eq!(g.player.speed, PLAYER_SPEED);
    assert_eq!(g.player.light_radius, 4);
    assert_eq!(g.player.light_radius, PLAYER_LIGHT_RADIUS);
    assert_eq!((g.player.hp, g.player.hp_max), (100, 100));
    assert_eq!(g.player.hp, PLAYER_HP);
    assert_eq!(g.player.q.name, "Q");
    assert_eq!(g.player.q.cooldown, 4000);
    assert_eq!(g.player.q.cooldown, Q_COOLDOWN);
    assert_eq!(g.player.q.last_use, None);
    assert_eq!(g.player.auto.name, "AUTO");
    assert_eq!(g.player.auto.cooldown, 700);
    assert_eq!(g.player.auto.cooldown, AUTO_COOLDOWN);
    assert_eq!(g.player.auto.last_use, None);
    assert_eq!(g.player.sprite.frame.texture, "sprites_for_para.png");
    assert_eq!(
        g.player.sprite.frame.source_rect,
        Rect { x: PLAYER_SPRITE_OFFSET, y: 0, w: TILE_SIZE, h: TILE_SIZE }
    );
    assert_eq!(PLAYER_SPRITE_OFFSET, 64 * 256);
    assert_eq!(g.player.sprite.frame.dest_size, v(TILE_SIZE, TILE_SIZE));
    assert!(g.player.inventory.amulet.is_none() && g.player.inventory.foot.is_none());
    assert_eq!(g.enemies.len(), 2);
    assert_eq!(g.enemies[0].name, "Walker");
    assert_eq!(g.enemies[0].pos, v(1, 2));
    assert_eq!(g.enemies[0].strategy, EnemyStrategy::HorizontalPatrol);
    assert_eq!(g.enemies[1].name, "Nexus");
    assert_eq!(g.enemies[1].pos, v(3, 4));
    assert_eq!(g.controls, idle());
    assert_eq!(HUD_HEIGHT, 64 * 256);
    assert_eq!(
        g.camera,
        GameCamera { pos: v(100 - 10_000, 200 - 8192), dim: v(20_000, 2 * TILE_SIZE) }
    );
    assert_eq!(
        g.stats,
        GameStats { damage_dealt: 0, damage_received: 0, enemies_killed: 0, time_spent: 0 }
    );
}

#[test]
fn init_level_rejects_uneven_or_missing_rows() {
    let res = resources();
    let d = level_def(&["ccc", "cc"], v(0, 0), &[]);
    assert_eq!(init_level(&d, &res, v(1, 1)).err(), Some(ConfigError::MalformedLevel));
    let d = level_def(&[], v(0, 0), &[]);
    assert_eq!(init_level(&d, &res, v(1, 1)).err(), Some(ConfigError::MalformedLevel));
}

#[test]
fn init_level_rejects_rows_that_hold_line_breaks_unevenly() {
    let d = level_def(&["cc\nc", "cc"], v(0, 0), &[]);
    assert_eq!(init_level(&d, &resources(), v(1, 1)).err(), Some(ConfigError::MalformedLevel));
}

#[test]
fn init_level_rejects_a_level_wider_than_the_coordinates() {
    let wide = "c".repeat(262_144);
    let d = level_def(&[wide.as_str()], v(0, 0), &[]);
    assert_eq!(init_level(&d, &resources(), v(1, 1)).err(), Some(ConfigError::LevelTooLarge));
    let fits = "c".repeat(262_143);
    let d = level_def(&[fits.as_str()], v(0, 0), &[]);
    assert!(init_level(&d, &resources(), v(1, 1)).is_ok());
}

#[test]
fn init_level_reports_the_first_enemy_that_cannot_be_made() {
    let res = resources();
    let d = level_def(&["c"], v(0, 0), &[("Post", 0, 0), ("Dragon", 0, 0), ("Odd", 0, 0)]);
    assert_eq!(init_level(&d, &res, v(1, 1)).err(), Some(ConfigError::UnknownEnemy));
    let d = level_def(&["c"], v(0, 0), &[("Odd", 0, 0), ("Dragon", 0, 0)]);
    assert_eq!(init_level(&d, &res, v(1, 1)).err(), Some(ConfigError::InvalidStrategy));
}

#[test]
fn init_level_reports_the_level_before_the_enemies() {
    let d = level_def(&["cc", "c"], v(0, 0), &[("Dragon", 0, 0)]);
    assert_eq!(init_level(&d, &resources(), v(1, 1)).err(), Some(ConfigError::MalformedLevel));
}

#[test]
fn errors_describe_themselves() {
    assert_eq!(ConfigError::MalformedLevel.describe(), "level rows are missing or uneven");
    assert_eq!(ConfigError::UnknownEnemy.describe(), "unknown enemy name");
    assert_eq!(ConfigError::InvalidStrategy.describe(), "invalid enemy strategy");
    assert_eq!(ConfigError::InvalidDefinition.describe(), "enemy definition out of range");
    assert_eq!(ConfigError::LevelTooLarge.describe(), "level too large");
}

#[test]
fn add_enemy_appends() {
    let mut g = open_game(v(0, 0), &[("Post", 1, 1)]);
    g.add_enemy(create_enemy("Hunter".to_string(), v(9, 9), &resources()).unwrap());
    assert_eq!(g.enemies.len(), 2);
    assert_eq!(g.enemies[0].name, "Post");
    assert_eq!(g.enemies[1].name, "Hunter");
    assert_eq!(g.enemies[1].pos, v(9, 9));
}

#[test]
fn get_enemy_index_at_pos_includes_the_border() {
    let g = open_game(v(0, 0), &[("Post", 10_000, 10_000)]);
    assert_eq!(g.get_enemy_index_at_pos(v(10_000, 10_000)), Some(0));
    assert_eq!(g.get_enemy_index_at_pos(v(12_048, 7952)), Some(0));
    assert_eq!(g.get_enemy_index_at_pos(v(12_049, 10_000)), None);
    assert_eq!(g.get_enemy_index_at_pos(v(10_000, 7951)), None);
}

#[test]
fn get_enemy_index_at_pos_takes_the_first_of_several() {
    let g = open_game(
        v(0, 0),
        &[("Post", 50_000, 50_000), ("Rocket", 10_000, 10_000), ("Post", 10_500, 10_000)],
    );
    assert_eq!(g.get_enemy_index_at_pos(v(10_400, 10_000)), Some(1));
    assert_eq!(g.get_enemy_index_at_pos(v(11_500, 10_000)), Some(2));
    assert_eq!(g.get_enemy_index_at_pos(v(30_000, 30_000)), None);
}

#[test]
fn update_level_lifts_the_fog_around_the_player() {
    let mut g = open_game(centre(10, 10), &[]);
    g.update_level();
    assert_eq!(fog_at(&g, 10, 10), FogLevel::Transparent);
    assert_eq!(fog_at(&g, 13, 10), FogLevel::Transparent);
    assert_eq!(fog_at(&g, 14, 10), FogLevel::Opaque);
    assert_eq!(fog_at(&g, 12, 12), FogLevel::Transparent);
    assert_eq!(fog_at(&g, 13, 13), FogLevel::Opaque);
    let lit = g.lvl.tiles.iter().filter(|t| t.fog == FogLevel::Transparent).count();
    assert_eq!(lit, 45);
}

#[test]
fn update_launches_a_rocket_toward_the_pointer() {
    let mut g = open_game(v(40_000, 40_000), &[]);
    g.controls = Controls { is_q: true, mouse_pos: v(50_000, 40_000), ..idle() };
    assert_eq!(g.update(&resources(), 1000, 16), Ok(()));
    assert_eq!(g.player.q.last_use, Some(1000));
    assert_eq!(g.player.pos, v(40_000, 40_000));
    assert_eq!(g.enemies.len(), 1);
    assert_eq!(g.enemies[0].name, "Rocket");
    assert_eq!(g.enemies[0].strategy, EnemyStrategy::Projectile);
    assert_eq!(g.enemies[0].dir, v(256, 0));
    // The rocket already flies in the frame that launches it.
    assert_eq!(g.enemies[0].pos, v(41_024, 40_000));
    assert_eq!(g.enemies[0].sprite.time, 16);
}

#[test]
fn update_waits_for_the_rocket_to_rest() {
    let mut g = open_game(v(40_000, 40_000), &[]);
    g.controls = Controls { is_q: true, mouse_pos: v(50_000, 40_000), ..idle() };
    let res = resources();
    g.update(&res, 1000, 16).unwrap();
    g.update(&res, 4999, 16).unwrap();
    assert_eq!(g.enemies.len(), 1);
    assert_eq!(g.player.q.last_use, Some(1000));
    g.update(&res, 5000, 16).unwrap();
    assert_eq!(g.enemies.len(), 2);
    assert_eq!(g.player.q.last_use, Some(5000));
    assert_eq!(g.enemies[0].pos, v(43_072, 40_000));
    assert_eq!(g.enemies[1].pos, v(41_024, 40_000));
}

#[test]
fn update_fails_and_changes_nothing_when_the_rocket_is_undefined() {
    let mut g = open_game(v(40_000, 40_000), &[("Walker", 20_000, 20_000)]);
    g.controls = Controls { is_q: true, is_right: true, mouse_pos: v(50_000, 40_000), ..idle() };
    let res = without(resources(), "Rocket");
    assert_eq!(g.update(&res, 1000, 16), Err(ConfigError::UnknownEnemy));
    assert_eq!(g.player.q.last_use, None);
    assert_eq!(g.player.pos, v(40_000, 40_000));
    assert_eq!(g.enemies.len(), 1);
    assert_eq!(g.enemies[0].pos, v(20_000, 20_000));
    assert!(g.lvl.tiles.iter().all(|t| t.fog == FogLevel::Opaque));
}

#[test]
fn update_runs_when_an_undefined_rocket_is_not_due() {
    let mut g = open_game(v(40_000, 40_000), &[]);
    g.controls = Controls { is_right: true, ..idle() };
    let res = without(resources(), "Rocket");
    assert_eq!(g.update(&res, 1000, 16), Ok(()));
    assert_eq!(g.player.pos, v(40_768, 40_000));
}

#[test]
fn update_shoots_at_a_clicked_enemy_and_stands() {
    let mut g = open_game(v(40_000, 40_000), &[("Post", 50_000, 40_000)]);
    g.player.target_pos = Some(v(1, 1));
    g.controls = Controls { is_right_mouse_click: true, mouse_pos: v(51_000, 41_000), ..idle() };
    let res = resources();
    g.update(&res, 0, 16).unwrap();
    assert_eq!(g.player.auto.last_use, Some(0));
    assert_eq!(g.player.target_pos, None);
    assert_eq!(g.player.pos, v(40_000, 40_000));
    assert_eq!(g.enemies.len(), 2);
    assert_eq!(g.enemies[1].name, "Shot");
    assert_eq!(g.enemies[1].dir, v(256, 0));
    assert_eq!(g.enemies[1].pos, v(42_048, 40_000));
    g.controls = idle();
    g.update(&res, 16, 16).unwrap();
    g.update(&res, 32, 16).unwrap();
    assert_eq!(g.enemies[1].pos, v(46_144, 40_000));
    assert_eq!(g.enemies[0].hp, 100);
    g.update(&res, 48, 16).unwrap();
    // The shot reached the post, dealt its damage and is gone.
    assert_eq!(g.enemies.len(), 1);
    assert_eq!(g.enemies[0].hp, 97);
    assert_eq!(g.stats.damage_dealt, 3);
    assert_eq!(g.stats.enemies_killed, 0);
}

#[test]
fn update_click_on_an_enemy_while_the_shot_rests_only_stops_the_player() {
    let mut g = open_game(v(40_000, 40_000), &[("Post", 50_000, 40_000)]);
    g.player.auto.last_use = Some(0);
    g.player.target_pos = Some(v(1, 1));
    g.controls = Controls { is_right_mouse_click: true, mouse_pos: v(50_000, 40_000), ..idle() };
    g.update(&resources(), 699, 16).unwrap();
    assert_eq!(g.enemies.len(), 1);
    assert_eq!(g.player.auto.last_use, Some(0));
    assert_eq!(g.player.target_pos, None);
    assert_eq!(g.player.pos, v(40_000, 40_000));
    g.update(&without(resources(), "Shot"), 699, 16).unwrap();
    assert_eq!(g.update(&without(resources(), "Shot"), 700, 16), Err(ConfigError::UnknownEnemy));
}

#[test]
fn update_click_on_open_ground_sends_the_player_there() {
    let mut g = open_game(v(40_000, 40_000), &[("Post", 50_000, 40_000)]);
    g.controls = Controls { is_right_mouse_click: true, mouse_pos: v(40_000, 60_000), ..idle() };
    g.update(&resources(), 0, 16).unwrap();
    assert_eq!(g.enemies.len(), 1);
    assert_eq!(g.player.auto.last_use, None);
    assert_eq!(g.player.target_pos, Some(v(40_000, 60_000)));
    assert_eq!(g.player.pos, v(40_000, 40_768));
}

#[test]
fn update_held_button_over_an_enemy_does_not_shoot() {
    let mut g = open_game(v(40_000, 40_000), &[("Post", 50_000, 40_000)]);
    g.controls = Controls { is_right_mouse_down: true, mouse_pos: v(50_000, 40_000), ..idle() };
    g.update(&resources(), 0, 16).unwrap();
    assert_eq!(g.enemies.len(), 1);
    assert_eq!(g.player.pos, v(40_768, 40_000));
}

#[test]
fn update_moves_the_player_before_the_fog_and_the_camera() {
    let mut g = open_game(v(5 * TILE_SIZE - 100, centre(0, 5).y), &[]);
    g.camera = GameCamera { pos: v(0, 0), dim: v(4000, 4000) };
    g.controls = Controls { is_right: true, ..idle() };
    g.update(&resources(), 0, 16).unwrap();
    assert_eq!(g.player.pos.x, 5 * TILE_SIZE + 668);
    // Light of radius 4 around tile (5, 5) reaches column 8 but not column 1.
    assert_eq!(fog_at(&g, 8, 5), FogLevel::Transparent);
    assert_eq!(fog_at(&g, 2, 5), FogLevel::Transparent);
    assert_eq!(fog_at(&g, 1, 5), FogLevel::Opaque);
    assert_eq!(g.camera.pos, v(g.player.pos.x - 3000, g.player.pos.y - 3000));
}

#[test]
fn update_lets_the_player_move_before_the_enemies() {
    // The walker's step right is free only because the player has stepped away first.
    let mut g = open_game(v(40_000, 40_000), &[("Walker", 33_700, 40_000)]);
    g.controls = Controls { is_right: true, ..idle() };
    g.update(&resources(), 0, 16).unwrap();
    assert_eq!(g.player.pos, v(40_768, 40_000));
    assert_eq!(g.enemies[0].pos, v(34_212, 40_000));
    assert_eq!(g.player.hp, 100);
}

#[test]
fn update_removes_the_fallen_and_counts_them_once() {
    let mut g = open_game(v(100_000, 100_000), &[("Nexus", 42_000, 40_000)]);
    g.add_enemy({
        let mut r = create_enemy("Rocket".to_string(), v(40_000, 40_000), &resources()).unwrap();
        r.dir = v(256, 0);
        r
    });
    assert_eq!(count_nexus(&g.enemies), 1);
    g.update(&resources(), 0, 16).unwrap();
    // One objective standing alone: 7 * 10 takes all of its 20 hit points.
    assert!(g.enemies.is_empty());
    assert_eq!(count_nexus(&g.enemies), 0);
    assert_eq!(g.stats.damage_dealt, 70);
    assert_eq!(g.stats.enemies_killed, 1);
    g.update(&resources(), 16, 16).unwrap();
    assert_eq!(g.stats.enemies_killed, 1);
}

#[test]
fn update_removes_projectiles_that_leave_the_level() {
    let mut g = open_game(v(100, 40_000), &[]);
    g.controls = Controls { is_q: true, mouse_pos: v(-5000, 40_000), ..idle() };
    g.update(&resources(), 0, 16).unwrap();
    assert!(g.enemies.is_empty());
    assert_eq!(g.player.q.last_use, Some(0));
}

#[test]
fn update_contact_damage_can_defeat_the_player() {
    let mut g = open_game(v(40_000, 40_000), &[("Hunter", 46_244, 40_000)]);
    g.player.hp = 10;
    let res = resources();
    assert!(!g.is_lost());
    g.update(&res, 0, 16).unwrap();
    assert_eq!(g.player.hp, 3);
    g.update(&res, 499, 16).unwrap();
    assert_eq!(g.player.hp, 3);
    assert!(!g.is_lost());
    g.update(&res, 500, 16).unwrap();
    assert_eq!(g.player.hp, 0);
    assert!(g.is_lost());
    assert_eq!(g.stats.damage_received, 14);
}

#[test]
fn patrol_in_a_walled_corridor_oscillates() {
    let rows = ["aaaaaaa", "accccca", "aaaaaaa", "ccccccc"];
    let start = centre(2, 1);
    let mut g = game_on(&rows, centre(3, 3), &[("Walker", start.x, start.y)]);
    let res = resources();
    let mut reversed = 0;
    let mut heading = 0;
    for frame in 0..111u64 {
        g.update(&res, frame * 16, 16).unwrap();
        assert!(!g.lvl.is_solid_at(g.enemies[0].pos));
        assert_eq!(g.enemies[0].pos.y, start.y);
        if heading != 0 && g.enemies[0].dir.x != heading {
            reversed += 1;
        }
        heading = g.enemies[0].dir.x;
        if frame == 54 {
            assert_eq!(g.enemies[0].pos.x, 48_640);
        }
    }
    assert_eq!(reversed, 1);
    assert_eq!(g.enemies[0].pos, start);
    assert_eq!(g.enemies[0].dir, v(-512, 0));
    assert_eq!(g.player.pos, centre(3, 3));
    assert_eq!(g.player.hp, 100);
}

#[test]
fn stats_time_adds_up_and_is_capped() {
    let mut s = GameStats { damage_dealt: 1, damage_received: 2, enemies_killed: 3, time_spent: 10 };
    s.spend(16);
    assert_eq!(
        s,
        GameStats { damage_dealt: 1, damage_received: 2, enemies_killed: 3, time_spent: 26 }
    );
    s.spend(u64::MAX);
    assert_eq!(s.time_spent, u64::MAX);
}
