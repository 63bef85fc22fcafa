//! Authored data: what kinds of enemies and tiles exist and how a level is
//! laid out.  Values arrive here already decoded; all lengths and speeds
//! are in fixed point.

use vstd::prelude::*;
use crate::enemy::EnemyStrategy;

verus! {

/// A pair of coordinates as it appears in authored data.
#[derive(Clone, Copy, Debug, PartialEq, Eq, Structural)]
pub struct Point {
    pub x: i32,
    pub y: i32,
}

/// How an enemy is drawn.
pub struct EnemySpriteDefinition {
    pub texture: String,
    /// Top-left corner of each animation frame within the texture.
    pub frames: Vec<Point>,
    pub fps: u8,
}

/// A kind of enemy.
pub struct EnemyDefinition {
    pub name: String,
    pub strategy: String,
    pub speed: i32,
    pub speed_solid: i32,
    pub sprite: EnemySpriteDefinition,
    pub dim: Point,
    pub fog_of_war: bool,
    pub hp_max: usize,
    pub damage: usize,
}

/// A kind of tile.
pub struct TileDefinition {
    pub name: String,
    pub ch: char,
    pub texture: String,
    pub solid: bool,
}

/// An enemy of a level: its kind and where it starts.
pub struct LevelEnemyDefinition {
    pub name: String,
    pub x: i32,
    pub y: i32,
}

/// A level as authored.
pub struct LevelDefinition {
    /// The rows of the level, top to bottom, one character per tile.
    pub tiles: Vec<String>,
    pub player: Point,
    pub enemies: Vec<LevelEnemyDefinition>,
}

/// All definitions known to a game.  Where two definitions share a name or
/// a character, the later one counts.
pub struct Resources {
    pub enemy_definitions: Vec<EnemyDefinition>,
    pub tile_defintions: Vec<TileDefinition>,
}

/// The index of the definition that counts for the enemy name `name`.
pub open spec fn spec_find_enemy(defs: Seq<EnemyDefinition>, name: Seq<char>) -> Option<int>
    decreases defs.len(),
{
    if defs.len() == 0 {
        None
    } else if defs.last().name@ == name {
        Some(defs.len() - 1)
    } else {
        spec_find_enemy(defs.drop_last(), name)
    }
}

/// The index of the definition that counts for the tile character `ch`.
pub open spec fn spec_find_tile(defs: Seq<TileDefinition>, ch: char) -> Option<int>
    decreases defs.len(),
{
    if defs.len() == 0 {
        None
    } else if defs.last().ch == ch {
        Some(defs.len() - 1)
    } else {
        spec_find_tile(defs.drop_last(), ch)
    }
}

/// The behaviour that a strategy name stands for.
pub open spec fn spec_strategy(name: Seq<char>) -> Option<EnemyStrategy> {
    if name == "followPlayer"@ {
        Some(EnemyStrategy::FollowPlayer)
    } else if name == "verticalPatrol"@ {
        Some(EnemyStrategy::VerticalPatrol)
    } else if name == "horizontalPatrol"@ {
        Some(EnemyStrategy::HorizontalPatrol)
    } else if name == "noMovement"@ {
        Some(EnemyStrategy::NoMovement)
    } else if name == "projectile"@ {
        Some(EnemyStrategy::Projectile)
    } else {
        None
    }
}

/// `spec_find_enemy` names the last definition with the given name.
pub proof fn lemma_find_enemy(defs: Seq<EnemyDefinition>, name: Seq<char>)
    ensures
        match spec_find_enemy(defs, name) {
            Some(k) => 0 <= k < defs.len() && defs[k].name@ == name && forall|j: int|
                k < j < defs.len() ==> (#[trigger] defs[j]).name@ != name,
            None => forall|j: int| 0 <= j < defs.len() ==> (#[trigger] defs[j]).name@ != name,
        },
    decreases defs.len(),
{
    if defs.len() > 0 && defs.last().name@ != name {
        lemma_find_enemy(defs.drop_last(), name);
        assert forall|j: int| 0 <= j < defs.len() - 1 implies defs[j] == defs.drop_last()[j] by {}
    }
}

/// Reads a strategy name.
pub fn parse_strategy(name: &String) -> (strategy: Option<EnemyStrategy>)
    ensures
        strategy == spec_strategy(name@),
{
    if *name == "followPlayer".to_owned() {
        Some(EnemyStrategy::FollowPlayer)
    } else if *name == "verticalPatrol".to_owned() {
        Some(EnemyStrategy::VerticalPatrol)
    } else if *name == "horizontalPatrol".to_owned() {
        Some(EnemyStrategy::HorizontalPatrol)
    } else if *name == "noMovement".to_owned() {
        Some(EnemyStrategy::NoMovement)
    } else if *name == "projectile".to_owned() {
        Some(EnemyStrategy::Projectile)
    } else {
        None
    }
}

impl Resources {
    /// Looks up the definition of the enemy called `name`.
    pub fn find_enemy(&self, name: &String) -> (found: Option<usize>)
        ensures
            match found {
                Some(k) => spec_find_enemy(self.enemy_definitions@, name@) == Some(k as int) && k
                    < self.enemy_definitions@.len(),
                None => spec_find_enemy(self.enemy_definitions@, name@) is None,
            },
    {
        let mut k: usize = self.enemy_definitions.len();
        assert(self.enemy_definitions@.take(k as int) =~= self.enemy_definitions@);
        while k > 0
            invariant
                k <= self.enemy_definitions@.len(),
                spec_find_enemy(self.enemy_definitions@, name@) == spec_find_enemy(
                    self.enemy_definitions@.take(k as int),
                    name@,
                ),
            decreases k,
        {
            k = k - 1;
            assert(self.enemy_definitions@.take(k + 1).drop_last()
                =~= self.enemy_definitions@.take(k as int));
            if self.enemy_definitions[k].name == *name {
                return Some(k);
            }
        }
        None
    }

    /// Looks up the definition of the tile drawn as `ch`.
    pub fn find_tile(&self, ch: char) -> (found: Option<usize>)
        ensures
            match found {
                Some(k) => spec_find_tile(self.tile_defintions@, ch) == Some(k as int) && k
                    < self.tile_defintions@.len(),
                None => spec_find_tile(self.tile_defintions@, ch) is None,
            },
    {
        let mut k: usize = self.tile_defintions.len();
        assert(self.tile_defintions@.take(k as int) =~= self.tile_defintions@);
        while k > 0
            invariant
                k <= self.tile_defintions@.len(),
                spec_find_tile(self.tile_defintions@, ch) == spec_find_tile(
                    self.tile_defintions@.take(k as int),
                    ch,
                ),
            decreases k,
        {
            k = k - 1;
            assert(self.tile_defintions@.take(k + 1).drop_last() =~= self.tile_defintions@.take(
                k as int,
            ));
            if self.tile_defintions[k].ch == ch {
                return Some(k);
            }
        }
        None
    }

    /// The name of the texture that the tile drawn as `ch` is painted with.
    pub fn tile_texture(&self, ch: char) -> (texture: Option<String>)
        ensures
            match texture {
                Some(t) => spec_find_tile(self.tile_defintions@, ch) matches Some(k)
                    && t == self.tile_defintions@[k].texture,
                None => spec_find_tile(self.tile_defintions@, ch) is None,
            },
    {
        match self.find_tile(ch) {
            Some(k) => Some(self.tile_defintions[k].texture.clone()),
            None => None,
        }
    }
}

/// Whether `name` is the sprite texture of one of the first `upto` enemy
/// definitions.
pub open spec fn enemy_texture_among(res: Resources, name: Seq<char>, upto: int) -> bool {
    exists|k: int|
        0 <= k < upto && (#[trigger] res.enemy_definitions@[k]).sprite.texture@ == name
}

/// Whether `name` is the texture of one of the first `upto` tile
/// definitions.
pub open spec fn tile_texture_among(res: Resources, name: Seq<char>, upto: int) -> bool {
    exists|k: int| 0 <= k < upto && (#[trigger] res.tile_defintions@[k]).texture@ == name
}

/// Whether `name` is the texture of some enemy or tile definition.
pub open spec fn texture_used(res: Resources, name: Seq<char>) -> bool {
    enemy_texture_among(res, name, res.enemy_definitions@.len() as int) || tile_texture_among(
        res,
        name,
        res.tile_defintions@.len() as int,
    )
}

/// Whether `name` is in `names`.
pub open spec fn listed(names: Seq<String>, name: Seq<char>) -> bool {
    exists|k: int| 0 <= k < names.len() && (#[trigger] names[k])@ == name
}

/// Whether no name occurs twice in `names`.
pub open spec fn distinct(names: Seq<String>) -> bool {
    forall|a: int, b: int|
        0 <= a < b < names.len() ==> (#[trigger] names[a])@ != (#[trigger] names[b])@
}

/// Adds `name` to `names` unless it is there already.
fn note(names: &mut Vec<String>, name: &String)
    requires
        distinct(old(names)@),
    ensures
        distinct(final(names)@),
        forall|other: Seq<char>| #[trigger]
            listed(final(names)@, other) <==> listed(old(names)@, other) || other == name@,
{
    let n = names.len();
    let mut k: usize = 0;
    while k < n
        invariant
            k <= n == names@.len(),
            names@ == old(names)@,
            distinct(names@),
            forall|j: int| 0 <= j < k ==> (#[trigger] names@[j])@ != name@,
        decreases n - k,
    {
        if names[k] == *name {
            assert forall|other: Seq<char>| #[trigger]
                listed(names@, other) <==> listed(old(names)@, other) || other == name@ by {
                if other == name@ {
                    assert(names@[k as int]@ == other);
                }
            }
            return ;
        }
        k = k + 1;
    }
    names.push(name.clone());
    proof {
        let before = old(names)@;
        assert(names@[n as int]@ == name@);
        assert forall|a: int, b: int| 0 <= a < b < names@.len() implies (#[trigger] names@[a])@ != (
        #[trigger] names@[b])@ by {
            if b < n {
                assert(before[a]@ != before[b]@);
            } else {
                assert(before[a]@ != name@);
            }
        }
        assert forall|other: Seq<char>| #[trigger]
            listed(names@, other) <==> listed(before, other) || other == name@ by {
            if listed(before, other) {
                let j = choose|j: int| 0 <= j < before.len() && (#[trigger] before[j])@ == other;
                assert(names@[j]@ == other);
            }
            if listed(names@, other) {
                let j = choose|j: int| 0 <= j < names@.len() && (#[trigger] names@[j])@ == other;
                if j < n {
                    assert(before[j]@ == other);
                }
            }
        }
    }
}

impl Resources {
    /// The textures that the definitions need, each named once.
    pub fn texture_names(&self) -> (names: Vec<String>)
        ensures
            distinct(names@),
            forall|name: Seq<char>| #[trigger] listed(names@, name) <==> texture_used(*self, name),
    {
        let mut names: Vec<String> = Vec::new();
        let enemies = self.enemy_definitions.len();
        let mut i: usize = 0;
        while i < enemies
            invariant
                i <= enemies == self.enemy_definitions@.len(),
                distinct(names@),
                forall|name: Seq<char>| #[trigger]
                    listed(names@, name) <==> enemy_texture_among(*self, name, i as int),
            decreases enemies - i,
        {
            let ghost before = names@;
            note(&mut names, &self.enemy_definitions[i].sprite.texture);
            proof {
                assert forall|name: Seq<char>| #[trigger]
                    listed(names@, name) <==> enemy_texture_among(*self, name, i + 1) by {
                    assert(listed(names@, name) <==> listed(before, name) || name
                        == self.enemy_definitions@[i as int].sprite.texture@);
                    assert(listed(before, name) <==> enemy_texture_among(*self, name, i as int));
                    if enemy_texture_among(*self, name, i + 1) {
                        let k = choose|k: int|
                            0 <= k < i + 1 && (#[trigger] self.enemy_definitions@[k]).sprite.texture@
                                == name;
                        if k < i {
                            assert(enemy_texture_among(*self, name, i as int));
                        }
                    }
                    if enemy_texture_among(*self, name, i as int) {
                        let k = choose|k: int|
                            0 <= k < i && (#[trigger] self.enemy_definitions@[k]).sprite.texture@
                                == name;
                        assert(0 <= k < i + 1);
                    }
                    if name == self.enemy_definitions@[i as int].sprite.texture@ {
                        assert(enemy_texture_among(*self, name, i + 1));
                    }
                }
            }
            i = i + 1;
        }
        let tiles = self.tile_defintions.len();
        let mut i: usize = 0;
        while i < tiles
            invariant
                i <= tiles == self.tile_defintions@.len(),
                distinct(names@),
                forall|name: Seq<char>| #[trigger]
                    listed(names@, name) <==> enemy_texture_among(
                        *self,
                        name,
                        self.enemy_definitions@.len() as int,
                    ) || tile_texture_among(*self, name, i as int),
            decreases tiles - i,
        {
            let ghost before = names@;
            note(&mut names, &self.tile_defintions[i].texture);
            proof {
                assert forall|name: Seq<char>| #[trigger]
                    listed(names@, name) <==> enemy_texture_among(
                        *self,
                        name,
                        self.enemy_definitions@.len() as int,
                    ) || tile_texture_among(*self, name, i + 1) by {
                    assert(listed(names@, name) <==> listed(before, name) || name
                        == self.tile_defintions@[i as int].texture@);
                    assert(listed(before, name) <==> enemy_texture_among(
                        *self,
                        name,
                        self.enemy_definitions@.len() as int,
                    ) || tile_texture_among(*self, name, i as int));
                    if tile_texture_among(*self, name, i + 1) {
                        let k = choose|k: int|
                            0 <= k < i + 1 && (#[trigger] self.tile_defintions@[k]).texture@ == name;
                        if k < i {
                            assert(tile_texture_among(*self, name, i as int));
                        }
                    }
                    if tile_texture_among(*self, name, i as int) {
                        let k = choose|k: int|
                            0 <= k < i && (#[trigger] self.tile_defintions@[k]).texture@ == name;
                        assert(0 <= k < i + 1);
                    }
                    if name == self.tile_defintions@[i as int].texture@ {
                        assert(tile_texture_among(*self, name, i + 1));
                    }
                }
            }
            i = i + 1;
        }
        names
    }
}

} // verus!
