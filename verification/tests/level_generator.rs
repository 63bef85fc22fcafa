use std::collections::HashMap;

use fog_arena::level::{FogLevel, Level, Room, Tile};
use fog_arena::level_generator::{
    add_random_room, add_room, blank_level, closest_room, connect_rooms, generate_level,
    rooms_joined, ROOM_MAX_HEIGHT, ROOM_MAX_WIDTH, ROOM_MIN_HEIGHT, ROOM_MIN_WIDTH,
};

fn room(x: usize, y: usize, w: usize, h: usize) -> Room {
    Room { x, y, w, h, connections: HashMap::new() }
}

fn rows(level: &Level) -> Vec<String> {
    (0..level.height)
        .map(|y| (0..level.width).map(|x| level.tiles[y * level.width + x].ch).collect())
        .collect()
}

fn links(level: &Level, i: usize) -> Vec<usize> {
    let mut keys: Vec<usize> = level.rooms[i].connections.keys().copied().collect();
    keys.sort();
    keys
}

fn two_rooms() -> Level {
    let mut level = blank_level(12, 9);
    assert!(add_room(&mut level, room(0, 0, 5, 5)));
    assert!(add_room(&mut level, room(7, 4, 5, 5)));
    level
}

fn link(level: &mut Level, a: usize, b: usize) {
    level.rooms[a].connections.insert(b, true);
}

/// A level of `n` small rooms in a row, none connected.
fn row_of_rooms(n: usize) -> Level {
    let mut level = blank_level(6 * n, 5);
    for i in 0..n {
        assert!(add_room(&mut level, room(6 * i, 0, 5, 5)));
    }
    level
}

#[test]
fn blank_level_is_all_blank() {
    let level = blank_level(3, 2);
    assert_eq!((level.width, level.height), (3, 2));
    assert_eq!(level.tiles.len(), 6);
    assert!(level.tiles.iter().all(|t| *t == Tile { fog: FogLevel::Opaque, solid: true, ch: ' ' }));
    assert!(level.rooms.is_empty());
    assert_eq!(blank_level(0, 7).tiles.len(), 0);
}

#[test]
fn add_room_draws_walls_around_ground() {
    let level = two_rooms();
    assert_eq!(
        rows(&level),
        vec![
            "aaaaa       ",
            "accca       ",
            "accca       ",
            "accca       ",
            "aaaaa  aaaaa",
            "       accca",
            "       accca",
            "       accca",
            "       aaaaa",
        ]
    );
    assert_eq!(level.rooms.len(), 2);
    assert_eq!((level.rooms[1].x, level.rooms[1].y, level.rooms[1].w, level.rooms[1].h), (7, 4, 5, 5));
    assert!(!level.tiles[13].solid);
    assert!(level.tiles[0].solid);
    assert!(level.tiles.iter().all(|t| t.fog == FogLevel::Opaque));
}

#[test]
fn add_room_refuses_a_room_outside_the_grid() {
    let mut level = blank_level(10, 10);
    assert!(!add_room(&mut level, room(6, 0, 5, 5)));
    assert!(!add_room(&mut level, room(0, 6, 5, 5)));
    assert!(!add_room(&mut level, room(usize::MAX, 0, 5, 5)));
    assert!(!add_room(&mut level, room(0, 3, 5, usize::MAX)));
    assert!(level.rooms.is_empty());
    assert!(level.tiles.iter().all(|t| t.ch == ' '));
    assert!(add_room(&mut level, room(5, 5, 5, 5)));
}

#[test]
fn add_room_refuses_taken_space() {
    let mut level = two_rooms();
    let before = rows(&level);
    assert!(!add_room(&mut level, room(4, 4, 5, 5)));
    assert!(!add_room(&mut level, room(3, 0, 5, 5)));
    assert_eq!(rows(&level), before);
    assert_eq!(level.rooms.len(), 2);
}

#[test]
fn add_room_of_the_smallest_sizes() {
    let mut level = blank_level(4, 3);
    assert!(add_room(&mut level, room(0, 0, 1, 1)));
    assert!(add_room(&mut level, room(2, 0, 2, 3)));
    assert!(add_room(&mut level, room(1, 1, 0, 0)));
    assert_eq!(rows(&level), vec!["a aa", "  aa", "  aa"]);
    assert_eq!(level.rooms.len(), 3);
}

#[test]
fn connect_rooms_digs_along_the_row_and_then_the_column() {
    let mut level = two_rooms();
    connect_rooms(&mut level, 0, 1, 'c', 'b');
    assert_eq!(
        rows(&level),
        vec![
            "aaaaa       ",
            "acccabbbbbb ",
            "acccccccccb ",
            "acccabbbbcb ",
            "aaaaa  aacaa",
            "       accca",
            "       accca",
            "       accca",
            "       aaaaa",
        ]
    );
    assert_eq!(links(&level, 0), vec![1]);
    assert_eq!(links(&level, 1), vec![0]);
}

#[test]
fn connect_rooms_the_other_way_takes_the_other_bend() {
    let mut level = two_rooms();
    connect_rooms(&mut level, 1, 0, 'c', 'b');
    assert_eq!(
        rows(&level),
        vec![
            "aaaaa       ",
            "accca       ",
            "accca       ",
            "accca       ",
            "aacaa  aaaaa",
            " bcbbbbaccca",
            " bccccccccca",
            " bbbbbbaccca",
            "       aaaaa",
        ]
    );
    assert_eq!(links(&level, 0), vec![1]);
    assert_eq!(links(&level, 1), vec![0]);
}

#[test]
fn connect_rooms_does_nothing_when_a_corridor_is_on_record() {
    let mut level = two_rooms();
    link(&mut level, 0, 1);
    let before = rows(&level);
    connect_rooms(&mut level, 0, 1, 'c', 'b');
    assert_eq!(rows(&level), before);
    assert_eq!(links(&level, 0), vec![1]);
    assert!(links(&level, 1).is_empty());
}

#[test]
fn connect_rooms_of_a_room_with_itself_only_records_it() {
    let mut level = two_rooms();
    let before = rows(&level);
    connect_rooms(&mut level, 1, 1, 'c', 'b');
    assert_eq!(rows(&level), before);
    assert_eq!(links(&level, 1), vec![1]);
}

#[test]
fn rooms_joined_follows_chains_of_corridors() {
    let mut level = row_of_rooms(5);
    link(&mut level, 0, 1);
    link(&mut level, 1, 2);
    link(&mut level, 2, 0);
    link(&mut level, 3, 4);
    assert!(rooms_joined(&level, 0, 1));
    assert!(rooms_joined(&level, 0, 2));
    assert!(rooms_joined(&level, 1, 0));
    assert!(rooms_joined(&level, 0, 0));
    assert!(!rooms_joined(&level, 0, 3));
    assert!(!rooms_joined(&level, 0, 4));
    assert!(rooms_joined(&level, 3, 4));
    assert!(!rooms_joined(&level, 4, 3));
    assert!(!rooms_joined(&level, 4, 4));
    assert!(!rooms_joined(&level, 3, 3));
}

#[test]
fn rooms_joined_needs_a_corridor_even_to_the_room_itself() {
    let mut level = row_of_rooms(2);
    assert!(!rooms_joined(&level, 0, 0));
    link(&mut level, 0, 0);
    assert!(rooms_joined(&level, 0, 0));
    assert!(!rooms_joined(&level, 0, 1));
    assert!(!rooms_joined(&level, 0, 7));
}

#[test]
fn rooms_joined_terminates_on_loops() {
    let mut level = row_of_rooms(4);
    for a in 0..3 {
        for b in 0..3 {
            link(&mut level, a, b);
        }
    }
    assert!(!rooms_joined(&level, 0, 3));
    assert!(rooms_joined(&level, 2, 1));
}

#[test]
fn closest_room_is_the_nearest_other_room() {
    let mut level = blank_level(40, 20);
    assert!(add_room(&mut level, room(0, 0, 5, 5)));
    assert!(add_room(&mut level, room(30, 0, 5, 5)));
    assert!(add_room(&mut level, room(10, 0, 5, 5)));
    assert!(add_room(&mut level, room(0, 10, 5, 5)));
    assert_eq!(closest_room(&level, 0, false), Some(2));
    assert_eq!(closest_room(&level, 1, false), Some(2));
    assert_eq!(closest_room(&level, 2, false), Some(0));
    assert_eq!(closest_room(&level, 3, false), Some(0));
}

#[test]
fn closest_room_takes_the_first_of_equally_near_rooms() {
    let mut level = blank_level(40, 30);
    assert!(add_room(&mut level, room(10, 10, 5, 5)));
    assert!(add_room(&mut level, room(10, 20, 5, 5)));
    assert!(add_room(&mut level, room(20, 10, 5, 5)));
    assert!(add_room(&mut level, room(10, 0, 5, 5)));
    assert_eq!(closest_room(&level, 0, false), Some(1));
}

#[test]
fn closest_room_compares_centres_not_corners() {
    let mut level = blank_level(60, 20);
    assert!(add_room(&mut level, room(20, 0, 5, 5)));
    // Corners 15 and 14 away, centres 15 and 19 away.
    assert!(add_room(&mut level, room(5, 0, 5, 5)));
    assert!(add_room(&mut level, room(34, 0, 15, 5)));
    assert_eq!(closest_room(&level, 0, false), Some(1));
}

#[test]
fn closest_room_among_those_joined_to_the_first() {
    let mut level = blank_level(40, 20);
    assert!(add_room(&mut level, room(0, 0, 5, 5)));
    assert!(add_room(&mut level, room(30, 0, 5, 5)));
    assert!(add_room(&mut level, room(10, 0, 5, 5)));
    assert!(add_room(&mut level, room(20, 0, 5, 5)));
    assert_eq!(closest_room(&level, 1, true), None);
    link(&mut level, 0, 0);
    assert_eq!(closest_room(&level, 1, true), Some(0));
    link(&mut level, 2, 0);
    assert_eq!(closest_room(&level, 1, true), Some(2));
    assert_eq!(closest_room(&level, 1, false), Some(3));
    assert_eq!(closest_room(&level, 0, true), Some(2));
}

#[test]
fn closest_room_of_a_lone_room_is_none() {
    let level = row_of_rooms(1);
    assert_eq!(closest_room(&level, 0, false), None);
    assert_eq!(closest_room(&level, 0, true), None);
}

#[test]
fn add_random_room_draws_varied_rooms_within_the_limits() {
    fastrand::seed(7);
    let mut widths = std::collections::HashSet::new();
    let mut heights = std::collections::HashSet::new();
    let mut columns = std::collections::HashSet::new();
    let mut rows_seen = std::collections::HashSet::new();
    let mut built = 0;
    for _ in 0..400 {
        let mut level = blank_level(60, 50);
        if add_random_room(&mut level) {
            built += 1;
            let r = &level.rooms[0];
            assert!(ROOM_MIN_WIDTH <= r.w && r.w <= ROOM_MAX_WIDTH);
            assert!(ROOM_MIN_HEIGHT <= r.h && r.h <= ROOM_MAX_HEIGHT);
            assert!(r.x + r.w <= 60 && r.y + r.h <= 50);
            assert!(r.connections.is_empty());
            widths.insert(r.w);
            heights.insert(r.h);
            columns.insert(r.x);
            rows_seen.insert(r.y);
        } else {
            assert!(level.rooms.is_empty());
            assert!(level.tiles.iter().all(|t| t.ch == ' '));
        }
    }
    assert!(built > 100);
    assert!(widths.len() > 5 && heights.len() > 5);
    assert!(columns.len() > 10 && rows_seen.len() > 10);
}

#[test]
fn add_random_room_never_fits_a_level_that_is_too_small() {
    fastrand::seed(11);
    let mut level = blank_level(4, 40);
    for _ in 0..200 {
        assert!(!add_random_room(&mut level));
    }
    assert!(level.rooms.is_empty());
}

#[test]
fn generate_level_joins_every_room_to_the_first() {
    for seed in 0..20 {
        fastrand::seed(seed);
        let level = generate_level(60, 40, 8, 2000);
        assert_eq!((level.width, level.height), (60, 40));
        assert_eq!(level.tiles.len(), 2400);
        assert!(level.rooms.len() <= 8);
        assert!(level.rooms.len() >= 2);
        for i in 0..level.rooms.len() {
            let r = &level.rooms[i];
            assert!(ROOM_MIN_WIDTH <= r.w && r.w <= ROOM_MAX_WIDTH);
            assert!(ROOM_MIN_HEIGHT <= r.h && r.h <= ROOM_MAX_HEIGHT);
            assert!(r.x + r.w <= 60 && r.y + r.h <= 40);
            assert!(rooms_joined(&level, i, 0));
            assert!(rooms_joined(&level, 0, i));
            assert!(r.connections.contains_key(&i));
            assert!(r.connections.keys().all(|k| *k < level.rooms.len()));
            for y in r.y + 1..r.y + r.h - 1 {
                for x in r.x + 1..r.x + r.w - 1 {
                    assert_eq!(level.tiles[y * 60 + x], Tile::from_char('c'));
                }
            }
        }
        for t in &level.tiles {
            assert!([' ', 'a', 'b', 'c'].contains(&t.ch));
            assert_eq!(*t, Tile::from_char(t.ch));
        }
    }
}

#[test]
fn generate_level_gives_up_after_its_attempts() {
    fastrand::seed(3);
    let level = generate_level(4, 4, 5, 50);
    assert!(level.rooms.is_empty());
    assert!(level.tiles.iter().all(|t| t.ch == ' '));
    let level = generate_level(30, 30, 5, 0);
    assert!(level.rooms.is_empty());
    let level = generate_level(30, 30, 0, 100);
    assert!(level.rooms.is_empty());
}

#[test]
fn generate_level_with_a_single_room_leaves_it_alone() {
    fastrand::seed(5);
    let level = generate_level(40, 40, 1, 500);
    assert_eq!(level.rooms.len(), 1);
    assert_eq!(links(&level, 0), vec![0]);
    assert!(level.tiles.iter().all(|t| t.ch != 'b'));
}
