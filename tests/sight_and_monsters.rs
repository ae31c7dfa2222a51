use roguelike::components::{CombatStats, Confusion, Name, Position, Viewshed, WantsToMelee};
use roguelike::ecs::World;
use roguelike::game_log::GameLog;
use roguelike::inventory_system::use_item;
use roguelike::map::{GameMap, Point, MAP_WIDTH};
use roguelike::monster_ai_system::monster_act;
use roguelike::player::get_item;
use roguelike::spawner::{player, spawn_kind, HEALTH_POTION};
use roguelike::state::RunState;
use roguelike::visibility_system::apply_view;

fn world_in(state: RunState) -> World {
    World::new(GameMap::new(1), GameLog { entries: Vec::new() }, state, Point::new(5, 5))
}

#[test]
fn player_view_sets_visible_and_revealed() {
    let mut w = world_in(RunState::PreRun);
    let p = player(&mut w, 5, 5);
    w.map.visible_tiles[0] = true;
    apply_view(&mut w, p, vec![Point::new(5, 5), Point::new(6, 5), Point::new(-1, 3), Point::new(80, 0)]);
    let vs = w.entities[p].viewshed.as_ref().unwrap();
    assert_eq!(vs.visible_tiles, vec![Point::new(5, 5), Point::new(6, 5)]);
    assert!(!vs.dirty);
    assert!(!w.map.visible_tiles[0]);
    assert!(w.map.visible_tiles[5 * MAP_WIDTH + 6]);
    assert!(w.map.revealed_tiles[5 * MAP_WIDTH + 5]);
    apply_view(&mut w, p, vec![Point::new(1, 1)]);
    assert!(!w.map.visible_tiles[5 * MAP_WIDTH + 6]);
    assert!(w.map.revealed_tiles[5 * MAP_WIDTH + 6]);
}

#[test]
fn monster_view_leaves_the_map_alone() {
    let mut w = world_in(RunState::PreRun);
    let m = w.create_entity();
    w.entities[m].viewshed = Some(Viewshed { visible_tiles: Vec::new(), range: 8, dirty: true });
    apply_view(&mut w, m, vec![Point::new(2, 2)]);
    assert_eq!(w.entities[m].viewshed.as_ref().unwrap().visible_tiles, vec![Point::new(2, 2)]);
    assert!(!w.map.visible_tiles[2 * MAP_WIDTH + 2]);
}

fn monster_at(w: &mut World, x: i32, y: i32, sees: bool) -> usize {
    let m = w.create_entity();
    w.entities[m].position = Some(Position { x, y });
    let tiles = if sees { vec![Point::new(5, 5)] } else { Vec::new() };
    w.entities[m].viewshed = Some(Viewshed { visible_tiles: tiles, range: 8, dirty: false });
    w.entities[m].name = Some(Name { name: "Orc".to_string() });
    m
}

#[test]
fn adjacent_monster_attacks() {
    let mut w = world_in(RunState::MonsterTurn);
    let p = player(&mut w, 5, 5);
    w.player_entity = p;
    let m = monster_at(&mut w, 6, 6, true);
    monster_act(&mut w, m, Some(0));
    assert_eq!(w.entities[m].wants_to_melee, Some(WantsToMelee { target: p }));
    assert_eq!(w.entities[m].position, Some(Position { x: 6, y: 6 }));
}

#[test]
fn distant_monster_steps_along_its_path() {
    let mut w = world_in(RunState::MonsterTurn);
    let m = monster_at(&mut w, 9, 5, true);
    let step = (5 * MAP_WIDTH + 8) as i32;
    monster_act(&mut w, m, Some(step));
    assert_eq!(w.entities[m].position, Some(Position { x: 8, y: 5 }));
    assert!(w.entities[m].viewshed.as_ref().unwrap().dirty);
    assert!(w.map.blocked[5 * MAP_WIDTH + 8]);
    assert!(!w.map.blocked[5 * MAP_WIDTH + 9]);
}

#[test]
fn blind_or_off_turn_monster_waits() {
    let mut w = world_in(RunState::MonsterTurn);
    let m = monster_at(&mut w, 9, 5, false);
    monster_act(&mut w, m, Some(3));
    assert_eq!(w.entities[m].position, Some(Position { x: 9, y: 5 }));
    let mut w2 = world_in(RunState::PlayerTurn);
    let m2 = monster_at(&mut w2, 6, 5, true);
    monster_act(&mut w2, m2, Some(3));
    assert!(w2.entities[m2].wants_to_melee.is_none());
}

#[test]
fn picking_up_needs_an_item_underfoot() {
    let mut w = world_in(RunState::AwaitingInput);
    let p = player(&mut w, 5, 5);
    w.player_entity = p;
    assert!(!get_item(&mut w));
    assert_eq!(w.log.entries[0], "There is nothing here to pick up.");
    let potion = spawn_kind(&mut w, HEALTH_POTION, 5, 5);
    assert!(get_item(&mut w));
    let want = w.entities[p].wants_to_pickup_item.unwrap();
    assert_eq!((want.collected_by, want.item), (p, potion));
}

#[test]
fn confusion_scroll_confuses_the_target() {
    let mut w = world_in(RunState::PlayerTurn);
    let p = player(&mut w, 1, 1);
    w.player_entity = p;
    let m = monster_at(&mut w, 10, 10, false);
    w.entities[m].combat_stats = Some(CombatStats { max_hp: 5, hp: 5, defense: 0, power: 1 });
    let scroll = w.create_entity();
    w.entities[scroll].confusion = Some(Confusion { turns: 4 });
    use_item(&mut w, p, scroll, Some(Point::new(10, 10)));
    assert_eq!(w.entities[m].confusion, Some(Confusion { turns: 4 }));
    assert_eq!(w.log.entries[0], "Orc is confused");
    assert!(w.entities[scroll].alive);
}
