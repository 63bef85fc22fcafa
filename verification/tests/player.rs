use fog_arena::controls::Controls;
use fog_arena::fixed::Vec2;
use fog_arena::game::{init_level, Game};
use fog_arena::level::TILE_SIZE;
use fog_arena::movement::Axis;
use fog_arena::player::{collides_any, player_step, ARRIVAL_RADIUS, DIAGONAL_FACTOR};
use fog_arena::resources::{
    EnemyDefinition, EnemySpriteDefinition, LevelDefinition, LevelEnemyDefinition, Point, Resources,
};

fn v(x: i32, y: i32) -> Vec2 {
    Vec2 { x, y }
}

fn def(name: &str, strategy: &str, dim: i32) -> EnemyDefinition {
    EnemyDefinition {
        name: name.to_string(),
        strategy: strategy.to_string(),
        speed: 0,
        speed_solid: 0,
        sprite: EnemySpriteDefinition {
            texture: "e.png".to_string(),
            frames: vec![Point { x: 0, y: 0 }],
            fps: 1,
        },
        dim: Point { x: dim, y: dim },
        fog_of_war: false,
        hp_max: 10,
        damage: 1,
    }
}

fn resources() -> Resources {
    Resources {
        enemy_definitions: vec![def("Post", "noMovement", 4096), def("Dart", "projectile", 4096)],
        tile_defintions: vec![],
    }
}

fn game_on(rows: &[&str], player: Vec2, enemies: &[(&str, i32, i32)]) -> Game {
    let lvl_def = LevelDefinition {
        tiles: rows.iter().map(|r| r.to_string()).collect(),
        player: Point { x: player.x, y: player.y },
        enemies: enemies
            .iter()
            .map(|(name, x, y)| LevelEnemyDefinition { name: name.to_string(), x: *x, y: *y })
            .collect(),
    };
    init_level(&lvl_def, &resources(), v(100_000, 100_000)).unwrap()
}

fn open_game(player: Vec2, enemies: &[(&str, i32, i32)]) -> Game {
    let row = "c".repeat(20);
    let rows: Vec<&str> = (0..20).map(|_| row.as_str()).collect();
    game_on(&rows, player, enemies)
}

fn idle() -> Controls {
    Controls {
        is_q: false,
        is_up: false,
        is_down: false,
        is_left: false,
        is_right: false,
        mouse_pos: v(0, 0),
        is_left_mouse_click: false,
        is_right_mouse_click: false,
        is_right_mouse_down: false,
    }
}

fn holding_at(x: i32, y: i32) -> Controls {
    Controls { mouse_pos: v(x, y), is_right_mouse_down: true, ..idle() }
}

#[test]
fn player_without_input_or_target_stands() {
    let mut g = open_game(v(40_000, 40_000), &[]);
    g.update_player();
    assert_eq!(g.player.pos, v(40_000, 40_000));
    assert_eq!(g.player.target_pos, None);
}

#[test]
fn player_walks_toward_the_held_pointer() {
    let mut g = open_game(v(40_000, 40_000), &[]);
    g.controls = holding_at(50_000, 40_000);
    g.update_player();
    assert_eq!(g.player.pos, v(40_768, 40_000));
    assert_eq!(g.player.target_pos, Some(v(50_000, 40_000)));
}

#[test]
fn player_takes_a_click_as_its_target() {
    let mut g = open_game(v(40_000, 40_000), &[]);
    g.controls = Controls { mouse_pos: v(40_000, 30_000), is_right_mouse_click: true, ..idle() };
    g.update_player();
    assert_eq!(g.player.pos, v(40_000, 39_232));
    assert_eq!(g.player.target_pos, Some(v(40_000, 30_000)));
}

#[test]
fn player_keeps_walking_to_a_target_it_already_has() {
    let mut g = open_game(v(40_000, 40_000), &[]);
    g.player.target_pos = Some(v(30_000, 40_000));
    g.controls = Controls { mouse_pos: v(1, 1), ..idle() };
    g.update_player();
    assert_eq!(g.player.pos, v(39_232, 40_000));
    assert_eq!(g.player.target_pos, Some(v(30_000, 40_000)));
}

#[test]
fn player_walks_diagonally_at_its_speed() {
    let mut g = open_game(v(40_000, 40_000), &[]);
    g.controls = holding_at(50_000, 50_000);
    g.update_player();
    // (181, 181)/256 at speed 768 is 543 along each axis.
    assert_eq!(g.player.pos, v(40_543, 40_543));
}

#[test]
fn player_forgets_its_target_on_arrival() {
    let mut g = open_game(v(40_000, 40_000), &[]);
    g.controls = holding_at(40_000 + ARRIVAL_RADIUS - 1, 40_000);
    g.update_player();
    assert_eq!(g.player.pos, v(40_000, 40_000));
    assert_eq!(g.player.target_pos, None);
}

#[test]
fn player_has_not_arrived_at_the_arrival_radius_itself() {
    let mut g = open_game(v(40_000, 40_000), &[]);
    assert_eq!(ARRIVAL_RADIUS, 5 * 256);
    g.controls = holding_at(40_000 + ARRIVAL_RADIUS, 40_000);
    g.update_player();
    assert_eq!(g.player.pos, v(40_768, 40_000));
    assert_eq!(g.player.target_pos, Some(v(41_280, 40_000)));
}

#[test]
fn player_slides_along_a_wall() {
    let mut g = game_on(&["ccc", "cac", "ccc"], v(8000, 9000), &[]);
    g.controls = holding_at(20_000, 21_000);
    g.update_player();
    assert_eq!(g.player.pos, v(8000, 9543));
    g.update_player();
    assert_eq!(g.player.pos.x, 8000);
    assert!(g.player.pos.y > 9543);
}

#[test]
fn player_is_stopped_by_an_enemy() {
    let mut g = open_game(v(40_000, 40_000), &[("Post", 46_244, 40_000)]);
    g.controls = holding_at(60_000, 40_000);
    g.update_player();
    assert_eq!(g.player.pos, v(40_000, 40_000));
    assert_eq!(g.player.target_pos, Some(v(60_000, 40_000)));
}

#[test]
fn player_walks_through_projectiles() {
    let mut g = open_game(v(40_000, 40_000), &[("Dart", 46_244, 40_000)]);
    g.controls = holding_at(60_000, 40_000);
    g.update_player();
    assert_eq!(g.player.pos, v(40_768, 40_000));
}

#[test]
fn player_may_leave_the_grid() {
    let mut g = game_on(&["cc", "cc"], v(100, 100), &[]);
    g.controls = holding_at(-50_000, 100);
    g.update_player();
    assert_eq!(g.player.pos, v(-668, 100));
    g.update_player();
    assert_eq!(g.player.pos, v(-1436, 100));
}

#[test]
fn player_follows_the_direction_keys() {
    let mut g = open_game(v(40_000, 40_000), &[]);
    g.controls = Controls { is_right: true, ..idle() };
    g.update_player();
    assert_eq!(g.player.pos, v(40_768, 40_000));
    g.controls = Controls { is_up: true, ..idle() };
    g.update_player();
    assert_eq!(g.player.pos, v(40_768, 39_232));
    g.controls = Controls { is_left: true, ..idle() };
    g.update_player();
    assert_eq!(g.player.pos, v(40_000, 39_232));
    g.controls = Controls { is_down: true, ..idle() };
    g.update_player();
    assert_eq!(g.player.pos, v(40_000, 40_000));
}

#[test]
fn player_diagonal_key_speed_is_normalized() {
    assert_eq!(DIAGONAL_FACTOR, 181);
    let mut g = open_game(v(40_000, 40_000), &[]);
    g.controls = Controls { is_right: true, is_down: true, ..idle() };
    g.update_player();
    // 768 * 181 / 256 = 543.
    assert_eq!(g.player.pos, v(40_543, 40_543));
    g.controls = Controls { is_left: true, is_up: true, ..idle() };
    g.update_player();
    assert_eq!(g.player.pos, v(40_000, 40_000));
}

#[test]
fn player_keys_cancel_the_target() {
    let mut g = open_game(v(40_000, 40_000), &[]);
    g.player.target_pos = Some(v(10_000, 10_000));
    g.controls = Controls { is_right: true, is_right_mouse_down: true, mouse_pos: v(1, 1), ..idle() };
    g.update_player();
    assert_eq!(g.player.pos, v(40_768, 40_000));
    assert_eq!(g.player.target_pos, None);
}

#[test]
fn player_opposite_keys_ask_for_nothing() {
    let mut g = open_game(v(40_000, 40_000), &[]);
    g.player.target_pos = Some(v(40_000, 60_000));
    g.controls = Controls { is_left: true, is_right: true, ..idle() };
    g.update_player();
    assert_eq!(g.player.pos, v(40_000, 40_768));
    assert_eq!(g.player.target_pos, Some(v(40_000, 60_000)));
}

#[test]
fn player_keys_slide_along_a_wall() {
    let mut g = game_on(&["ccc", "cac", "ccc"], v(8000, 9000), &[]);
    g.controls = Controls { is_right: true, is_down: true, ..idle() };
    g.update_player();
    assert_eq!(g.player.pos, v(8000, 9543));
}

#[test]
fn player_cannot_step_beyond_the_coordinates() {
    let mut g = game_on(&["cc", "cc"], v(i32::MAX - 100, i32::MIN + 100), &[]);
    g.controls = Controls { is_right: true, is_up: true, ..idle() };
    g.update_player();
    assert_eq!(g.player.pos, v(i32::MAX - 100, i32::MIN + 100));
}

#[test]
fn player_update_leaves_the_rest_of_the_game_alone() {
    let mut g = open_game(v(40_000, 40_000), &[("Post", 1000, 1000)]);
    g.controls = holding_at(50_000, 40_000);
    g.update_player();
    assert_eq!(g.enemies.len(), 1);
    assert_eq!(g.enemies[0].pos, v(1000, 1000));
    assert_eq!(g.controls, holding_at(50_000, 40_000));
    assert_eq!(g.player.hp, 100);
    assert_eq!(g.stats.damage_received, 0);
}

#[test]
fn player_step_commits_only_legal_steps() {
    let mut g = game_on(&["ccc", "cac", "ccc"], v(8000, 9000), &[]);
    player_step(&mut g.player, &g.enemies, &g.lvl, Axis::X, 191);
    assert_eq!(g.player.pos, v(8191, 9000));
    player_step(&mut g.player, &g.enemies, &g.lvl, Axis::X, 1);
    assert_eq!(g.player.pos, v(8191, 9000));
    player_step(&mut g.player, &g.enemies, &g.lvl, Axis::Y, -8192);
    assert_eq!(g.player.pos, v(8191, 9000 - TILE_SIZE));
    player_step(&mut g.player, &g.enemies, &g.lvl, Axis::X, 1);
    assert_eq!(g.player.pos, v(8192, 9000 - TILE_SIZE));
}

#[test]
fn box_collides_with_any_enemy_but_projectiles() {
    let g = open_game(v(0, 0), &[("Dart", 1000, 1000), ("Post", 9000, 9000)]);
    assert!(!collides_any(v(1000, 1000), v(4096, 4096), &g.enemies));
    assert!(collides_any(v(9000, 5000), v(4096, 4096), &g.enemies));
    assert!(!collides_any(v(9000, 4904), v(4096, 4096), &g.enemies));
    assert!(!collides_any(v(9000, 9000), v(4096, 4096), &vec![]));
}
