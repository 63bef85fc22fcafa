use fog_arena::enemy::EnemyStrategy;
use fog_arena::resources::{
    parse_strategy, EnemyDefinition, EnemySpriteDefinition, Point, Resources, TileDefinition,
};

fn enemy(name: &str, hp_max: usize) -> EnemyDefinition {
    EnemyDefinition {
        name: name.to_string(),
        strategy: "noMovement".to_string(),
        speed: 0,
        speed_solid: 0,
        sprite: EnemySpriteDefinition {
            texture: "e.png".to_string(),
            frames: vec![Point { x: 0, y: 0 }],
            fps: 1,
        },
        dim: Point { x: 1, y: 1 },
        fog_of_war: false,
        hp_max,
        damage: 0,
    }
}

fn tile(ch: char, texture: &str) -> TileDefinition {
    TileDefinition { name: "t".to_string(), ch, texture: texture.to_string(), solid: false }
}

#[test]
fn parse_strategy_knows_the_five_names() {
    assert_eq!(parse_strategy(&"followPlayer".to_string()), Some(EnemyStrategy::FollowPlayer));
    assert_eq!(parse_strategy(&"verticalPatrol".to_string()), Some(EnemyStrategy::VerticalPatrol));
    assert_eq!(
        parse_strategy(&"horizontalPatrol".to_string()),
        Some(EnemyStrategy::HorizontalPatrol)
    );
    assert_eq!(parse_strategy(&"noMovement".to_string()), Some(EnemyStrategy::NoMovement));
    assert_eq!(parse_strategy(&"projectile".to_string()), Some(EnemyStrategy::Projectile));
}

#[test]
fn parse_strategy_rejects_everything_else() {
    assert_eq!(parse_strategy(&"".to_string()), None);
    assert_eq!(parse_strategy(&"FollowPlayer".to_string()), None);
    assert_eq!(parse_strategy(&"projectile ".to_string()), None);
    assert_eq!(parse_strategy(&"patrol".to_string()), None);
}

#[test]
fn find_enemy_prefers_the_later_definition() {
    let res = Resources {
        enemy_definitions: vec![enemy("A", 1), enemy("B", 2), enemy("A", 3)],
        tile_defintions: vec![],
    };
    assert_eq!(res.find_enemy(&"A".to_string()), Some(2));
    assert_eq!(res.find_enemy(&"B".to_string()), Some(1));
    assert_eq!(res.find_enemy(&"C".to_string()), None);
}

#[test]
fn find_tile_prefers_the_later_definition() {
    let res = Resources {
        enemy_definitions: vec![],
        tile_defintions: vec![tile('a', "one.png"), tile('b', "two.png"), tile('a', "three.png")],
    };
    assert_eq!(res.find_tile('a'), Some(2));
    assert_eq!(res.find_tile('b'), Some(1));
    assert_eq!(res.find_tile('z'), None);
    assert_eq!(res.tile_texture('a'), Some("three.png".to_string()));
    assert_eq!(res.tile_texture('b'), Some("two.png".to_string()));
    assert_eq!(res.tile_texture('z'), None);
}

#[test]
fn lookups_in_empty_resources_find_nothing() {
    let res = Resources { enemy_definitions: vec![], tile_defintions: vec![] };
    assert_eq!(res.find_enemy(&"A".to_string()), None);
    assert_eq!(res.find_tile('a'), None);
    assert_eq!(res.tile_texture('a'), None);
}

#[test]
fn texture_names_lists_every_texture_once() {
    let mut a = enemy("A", 1);
    a.sprite.texture = "beasts.png".to_string();
    let mut b = enemy("B", 1);
    b.sprite.texture = "walls.png".to_string();
    let mut c = enemy("C", 1);
    c.sprite.texture = "beasts.png".to_string();
    let res = Resources {
        enemy_definitions: vec![a, b, c],
        tile_defintions: vec![tile('a', "walls.png"), tile('b', "floor.png"), tile('c', "floor.png")],
    };
    let mut names = res.texture_names();
    names.sort();
    assert_eq!(names, vec!["beasts.png", "floor.png", "walls.png"]);
}

#[test]
fn texture_names_of_empty_resources_is_empty() {
    let res = Resources { enemy_definitions: vec![], tile_defintions: vec![] };
    assert!(res.texture_names().is_empty());
}
