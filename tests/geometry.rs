use roguelike::game_log::{append_int, GameLog};
use roguelike::map::{GameMap, Point, TileType, MAP_COUNT, MAP_HEIGHT, MAP_WIDTH, MAX_ROOMS};
use roguelike::rect::Rect;

#[test]
fn rect_corners_and_center() {
    let r = Rect::new(2, 3, 6, 4);
    assert_eq!((r.x1, r.y1, r.x2, r.y2), (2, 3, 8, 7));
    assert_eq!(r.center(), (5, 5));
    assert_eq!(Rect::new(-3, -3, 0, 0).center(), (-3, -3));
    assert_eq!(Rect::new(-3, 0, 2, 1).center(), (-2, 0));
}

#[test]
fn touching_rects_do_not_intersect() {
    let a = Rect::new(0, 0, 5, 5);
    let b = Rect::new(5, 0, 5, 5);
    let c = Rect::new(4, 4, 5, 5);
    assert!(!a.intersect(&b));
    assert!(a.intersect(&c));
    assert!(c.intersect(&a));
}

#[test]
fn generated_rooms_never_overlap_and_stay_inside() {
    for _ in 0..20 {
        let map = GameMap::new_map_rooms_and_corridors(3);
        assert_eq!(map.depth, 3);
        assert!(!map.rooms.is_empty() && map.rooms.len() <= MAX_ROOMS as usize);
        for (i, a) in map.rooms.iter().enumerate() {
            assert!(a.x1 >= 0 && a.x2 <= MAP_WIDTH as i32 - 2);
            assert!(a.y1 >= 0 && a.y2 <= MAP_HEIGHT as i32 - 2);
            for b in map.rooms.iter().skip(i + 1) {
                assert!(!a.intersect(b));
            }
        }
        assert_eq!(map.tiles.len(), MAP_COUNT);
    }
}

fn reachable(map: &GameMap, from: (i32, i32)) -> Vec<bool> {
    let mut seen = vec![false; MAP_COUNT];
    let mut stack = vec![from];
    while let Some((x, y)) = stack.pop() {
        let idx = map.xy_idx(x, y);
        if seen[idx] || map.tiles[idx] != TileType::Floor {
            continue;
        }
        seen[idx] = true;
        for (dx, dy) in [(1, 0), (-1, 0), (0, 1), (0, -1)] {
            let (nx, ny) = (x + dx, y + dy);
            if nx >= 0 && ny >= 0 && nx < MAP_WIDTH as i32 && ny < MAP_HEIGHT as i32 {
                stack.push((nx, ny));
            }
        }
    }
    seen
}

#[test]
fn every_room_centre_is_reachable_from_the_first() {
    for _ in 0..20 {
        let map = GameMap::new_map_rooms_and_corridors(1);
        let seen = reachable(&map, map.rooms[0].center());
        for r in map.rooms.iter() {
            let (x, y) = r.center();
            assert!(seen[map.xy_idx(x, y)]);
        }
    }
}

#[test]
fn add_room_rejects_overlap_and_carves_corridors() {
    let mut map = GameMap::new(1);
    assert!(map.add_room(Rect::new(1, 1, 6, 6), true));
    assert!(!map.add_room(Rect::new(4, 4, 6, 6), true));
    assert_eq!(map.rooms.len(), 1);
    assert!(map.add_room(Rect::new(20, 10, 6, 6), false));
    // vertical run first, down the first room's centre column, then across
    assert_eq!(map.tiles[map.xy_idx(4, 13)], TileType::Floor);
    assert_eq!(map.tiles[map.xy_idx(15, 13)], TileType::Floor);
    assert_eq!(map.tiles[map.xy_idx(15, 4)], TileType::Wall);
    assert_eq!(map.tiles[map.xy_idx(1, 1)], TileType::Wall);
    assert_eq!(map.tiles[map.xy_idx(2, 2)], TileType::Floor);
}

#[test]
fn exits_and_blocking() {
    let mut map = GameMap::new(1);
    map.populate_blocked();
    assert!(map.blocked.iter().all(|b| *b));
    assert!(map.get_available_exits(map.xy_idx(5, 5) as i32).is_empty());
    assert!(map.add_room(Rect::new(1, 1, 6, 6), true));
    map.populate_blocked();
    let exits = map.get_available_exits(map.xy_idx(2, 2) as i32);
    let idx = map.xy_idx(2, 2) as i32;
    assert_eq!(exits, vec![(idx + 1, 100), (idx + 80, 100), (idx + 81, 145)]);
    assert!(map.is_opaque(0));
    assert!(!map.is_opaque(idx));
    assert!(!map.is_exit_valid(0, 5));
    assert_eq!(map.index_to_point2d(idx), Point::new(2, 2));
    assert_eq!(map.point2d_to_index(Point::new(2, 2)), idx);
    assert!(map.in_bounds(Point::new(1, 1)));
    assert!(!map.in_bounds(Point::new(79, 1)));
}

#[test]
fn decimal_writing() {
    let mut s = String::from("n=");
    append_int(&mut s, -2147483648);
    assert_eq!(s, "n=-2147483648");
    let mut t = String::new();
    append_int(&mut t, 907);
    assert_eq!(t, "907");
    let mut log = GameLog { entries: vec!["old".to_string()] };
    log.push_front("new".to_string());
    assert_eq!(log.entries, vec!["new".to_string(), "old".to_string()]);
}
