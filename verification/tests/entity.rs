use fog_arena::entity::{boxes_collide, is_out_of_lvl_bounds, pos_out_of_lvl_bounds};
use fog_arena::fixed::Vec2;
use fog_arena::level::{Level, TILE_SIZE};

fn v(x: i32, y: i32) -> Vec2 {
    Vec2 { x, y }
}

fn level(text: &str) -> Level {
    Level::load_from_string(text).unwrap()
}

#[test]
fn overlapping_boxes_collide() {
    assert!(boxes_collide(v(0, 0), v(10, 10), v(9, 9), v(10, 10)));
    assert!(boxes_collide(v(0, 0), v(10, 10), v(0, 0), v(2, 2)));
    assert!(boxes_collide(v(-5, -5), v(4, 4), v(-7, -7), v(2, 2)));
}

#[test]
fn touching_edges_do_not_collide() {
    assert!(!boxes_collide(v(0, 0), v(10, 10), v(10, 0), v(10, 10)));
    assert!(!boxes_collide(v(0, 0), v(10, 10), v(0, 10), v(10, 10)));
    assert!(!boxes_collide(v(0, 0), v(10, 10), v(10, 10), v(10, 10)));
    assert!(!boxes_collide(v(10, 0), v(10, 10), v(0, 0), v(10, 10)));
}

#[test]
fn odd_extents_are_compared_exactly() {
    // Half extents are 1.5 and 1.5: the boxes span [-1.5, 1.5) and [1.5, 4.5).
    assert!(!boxes_collide(v(0, 0), v(3, 3), v(3, 0), v(3, 3)));
    assert!(boxes_collide(v(0, 0), v(3, 3), v(2, 0), v(3, 3)));
    // Half extents 1.5 and 1: centres 2 apart overlap by half a unit.
    assert!(boxes_collide(v(0, 0), v(3, 3), v(2, 0), v(2, 2)));
    assert!(!boxes_collide(v(0, 0), v(3, 3), v(3, 0), v(2, 2)));
}

#[test]
fn separated_on_one_axis_is_no_collision() {
    assert!(!boxes_collide(v(0, 0), v(10, 10), v(0, 50), v(10, 10)));
    assert!(!boxes_collide(v(0, 0), v(10, 10), v(50, 0), v(10, 10)));
}

#[test]
fn collision_at_coordinate_extremes_does_not_wrap() {
    assert!(!boxes_collide(v(i32::MIN, 0), v(i32::MAX, 1), v(i32::MAX, 0), v(i32::MAX, 1)));
    assert!(boxes_collide(v(i32::MAX, 0), v(i32::MAX, 1), v(i32::MAX - 1, 0), v(1, 1)));
}

#[test]
fn level_bounds_include_the_border() {
    let lvl = level("cc\ncc\n");
    assert!(!pos_out_of_lvl_bounds(v(0, 0), &lvl));
    assert!(!pos_out_of_lvl_bounds(v(2 * TILE_SIZE, 2 * TILE_SIZE), &lvl));
    assert!(pos_out_of_lvl_bounds(v(2 * TILE_SIZE + 1, 0), &lvl));
    assert!(pos_out_of_lvl_bounds(v(0, 2 * TILE_SIZE + 1), &lvl));
    assert!(pos_out_of_lvl_bounds(v(-1, 0), &lvl));
    assert!(pos_out_of_lvl_bounds(v(0, -1), &lvl));
}

#[test]
fn out_of_bounds_follows_the_entity_position() {
    let lvl = level("ccc\n");
    let res = fog_arena::resources::Resources {
        enemy_definitions: vec![fog_arena::resources::EnemyDefinition {
            name: "Post".to_string(),
            strategy: "noMovement".to_string(),
            speed: 0,
            speed_solid: 0,
            sprite: fog_arena::resources::EnemySpriteDefinition {
                texture: "post.png".to_string(),
                frames: vec![fog_arena::resources::Point { x: 0, y: 0 }],
                fps: 1,
            },
            dim: fog_arena::resources::Point { x: 10, y: 10 },
            fog_of_war: false,
            hp_max: 1,
            damage: 0,
        }],
        tile_defintions: vec![],
    };
    let inside = fog_arena::enemy::create_enemy("Post".to_string(), v(5, 5), &res).unwrap();
    let outside =
        fog_arena::enemy::create_enemy("Post".to_string(), v(5, TILE_SIZE + 1), &res).unwrap();
    assert!(!is_out_of_lvl_bounds(&inside, &lvl));
    assert!(is_out_of_lvl_bounds(&outside, &lvl));
}
