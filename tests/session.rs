use roguelike::components::{
    CombatStats, EquipmentSlot, Equipped, InBackpack, Item, Name, Position,
    Viewshed, WantsToDropItem, WantsToPickupItem, WantsToRemoveItem,
};
use roguelike::ecs::World;
use roguelike::game_log::GameLog;
use roguelike::inventory_system::{ItemCollectionSystem, ItemDropSystem, ItemRemoveSystem};
use roguelike::map::{GameMap, Point, MAP_WIDTH};
use roguelike::map_indexing_system::MapIndexingSystem;
use roguelike::random_table::RandomTable;
use roguelike::run_state::{next_run_state, FrameAction, FrameEvent};
use roguelike::saveload_system::{load_game, save_game};
use roguelike::spawner::{player, spawn_kind, spawn_room, GOBLIN, SHIELD};
use roguelike::state::{MainMenuSelection, RunState, State};
use roguelike::rect::Rect;

fn empty_world() -> World {
    World::new(GameMap::new(1), GameLog { entries: vec!["Welcome".to_string()] }, RunState::AwaitingInput, Point::new(0, 0))
}

#[test]
fn random_table_picks_by_running_weight() {
    let t = RandomTable::new().add("Goblin", 10).add("Orc", 1).add("Nothing", 0);
    assert_eq!(t.entries.len(), 2);
    assert_eq!(t.total_weight, 11);
    assert_eq!(t.pick_index(0), Some(0));
    assert_eq!(t.pick_index(9), Some(0));
    assert_eq!(t.pick_index(10), Some(1));
    assert_eq!(t.pick_index(11), None);
    assert_eq!(t.pick_index(-1), None);
}

#[test]
fn random_table_draws_in_proportion() {
    let t = RandomTable::new().add("Goblin", 10).add("Orc", 1);
    let mut rng = rltk::RandomNumberGenerator::seeded(42);
    let mut goblins = 0;
    let draws = 22000;
    for _ in 0..draws {
        if t.roll(&mut rng) == "Goblin" {
            goblins += 1;
        }
    }
    let share = goblins as f64 / draws as f64;
    assert!((share - 10.0 / 11.0).abs() < 0.02, "share {}", share);
    let mut rng2 = rltk::RandomNumberGenerator::seeded(1);
    assert_eq!(RandomTable::new().roll(&mut rng2), "None");
}

#[test]
fn save_then_load_restores_the_world() {
    let mut w = empty_world();
    let p = player(&mut w, 7, 8);
    let sword = w.create_entity();
    w.entities[sword].name = Some(Name { name: "Sword".to_string() });
    w.entities[sword].equipped = Some(Equipped { owner: p, slot: EquipmentSlot::Melee });
    w.entities[p].viewshed = Some(Viewshed { visible_tiles: vec![Point::new(7, 8)], range: 8, dirty: false });
    w.map.bloodstains[3] = true;
    w.map.tile_content[5].push(p);
    let data = save_game(&w);
    let mut other = World::new(GameMap::new(9), GameLog { entries: Vec::new() }, RunState::PreRun, Point::new(0, 0));
    load_game(&mut other, data);
    assert_eq!(other.entities.len(), 2);
    assert_eq!(other.player_entity, p);
    assert_eq!(other.player_pos, Point::new(7, 8));
    assert_eq!(other.entities[sword].equipped, Some(Equipped { owner: p, slot: EquipmentSlot::Melee }));
    assert_eq!(other.entities[p].viewshed.as_ref().unwrap().visible_tiles, vec![Point::new(7, 8)]);
    assert_eq!(other.entities[p].name.as_ref().unwrap().name, "Player");
    assert_eq!(other.map.depth, 1);
    assert!(other.map.bloodstains[3]);
    assert!(other.map.tile_content[5].is_empty());
    assert_eq!(other.log.entries, vec!["Loaded game from save".to_string(), "Welcome".to_string()]);
    assert_eq!(other.run_state, RunState::PreRun);
}

#[test]
fn level_change_keeps_player_and_gear() {
    let mut w = empty_world();
    w.map = GameMap::new_map_rooms_and_corridors(1);
    let p = player(&mut w, 5, 5);
    w.player_entity = p;
    w.entities[p].combat_stats = Some(CombatStats { max_hp: 30, hp: 4, defense: 2, power: 5 });
    let carried = w.create_entity();
    w.entities[carried].in_backpack = Some(InBackpack { owner: p });
    let worn = w.create_entity();
    w.entities[worn].equipped = Some(Equipped { owner: p, slot: EquipmentSlot::Shield });
    let monster = spawn_kind(&mut w, GOBLIN, 6, 6);
    let floor_item = spawn_kind(&mut w, SHIELD, 7, 7);
    let mut s = State { ecs: w };
    assert_eq!(s.entities_to_remove_on_level_change(), vec![monster, floor_item]);
    s.goto_next_level();
    let w = &s.ecs;
    assert_eq!(w.map.depth, 2);
    assert!(w.entities[p].alive && w.entities[carried].alive && w.entities[worn].alive);
    assert!(!w.entities[monster].alive && !w.entities[floor_item].alive);
    assert_eq!(w.entities[p].combat_stats.unwrap().hp, 15);
    let (cx, cy) = w.map.rooms[0].center();
    assert_eq!(w.entities[p].position, Some(Position { x: cx, y: cy }));
    assert!(w.entities[p].viewshed.as_ref().unwrap().dirty);
    assert_eq!(w.log.entries[0], "You descend to the next level, and take a moment to heal.");
}

#[test]
fn new_game_starts_over() {
    let mut w = empty_world();
    let old = spawn_kind(&mut w, GOBLIN, 2, 2);
    let mut s = State { ecs: w };
    s.game_over_cleanup();
    assert!(!s.ecs.entities[old].alive);
    let p = s.ecs.player_entity;
    assert!(s.ecs.entities[p].player.is_some());
    assert_eq!(s.ecs.entities[p].combat_stats, Some(CombatStats { max_hp: 30, hp: 30, defense: 2, power: 5 }));
    assert_eq!(s.ecs.log.entries, vec!["Welcome to my game".to_string()]);
    assert_eq!(s.ecs.map.depth, 1);
}

#[test]
fn spawned_room_contents_stay_inside() {
    let mut w = empty_world();
    let room = Rect::new(10, 10, 6, 6);
    let mut rng = rltk::RandomNumberGenerator::seeded(7);
    for _ in 0..10 {
        spawn_room(&mut w, &room, 1, &mut rng);
    }
    for r in w.entities.iter() {
        let pos = r.position.unwrap();
        assert!(pos.x > 10 && pos.x <= 16 && pos.y > 10 && pos.y <= 16);
        assert!(r.player.is_none());
    }
}

#[test]
fn indexing_marks_blockers_and_occupants() {
    let mut w = empty_world();
    let m = spawn_kind(&mut w, GOBLIN, 3, 3);
    let i = spawn_kind(&mut w, SHIELD, 3, 3);
    let ghost = w.create_entity();
    w.entities[ghost].position = Some(Position { x: 4, y: 4 });
    w.entities[ghost].alive = false;
    MapIndexingSystem {}.run(&mut w);
    let idx = 3 * MAP_WIDTH + 3;
    assert!(w.map.blocked[idx]);
    assert_eq!(w.map.tile_content[idx], vec![m, i]);
    assert!(w.map.tile_content[4 * MAP_WIDTH + 4].is_empty());
}

#[test]
fn pickup_drop_and_remove() {
    let mut w = empty_world();
    let p = player(&mut w, 2, 2);
    w.player_entity = p;
    let item = w.create_entity();
    w.entities[item].item = Some(Item {});
    w.entities[item].name = Some(Name { name: "Dagger".to_string() });
    w.entities[item].position = Some(Position { x: 2, y: 2 });
    w.entities[p].wants_to_pickup_item = Some(WantsToPickupItem { collected_by: p, item });
    ItemCollectionSystem {}.run(&mut w);
    assert!(w.entities[item].position.is_none());
    assert_eq!(w.entities[item].in_backpack, Some(InBackpack { owner: p }));
    assert_eq!(w.log.entries[0], "You pick up the Dagger.");
    w.entities[p].position = Some(Position { x: 9, y: 9 });
    w.entities[p].wants_to_drop_item = Some(WantsToDropItem { item });
    ItemDropSystem {}.run(&mut w);
    assert_eq!(w.entities[item].position, Some(Position { x: 9, y: 9 }));
    assert!(w.entities[item].in_backpack.is_none());
    assert_eq!(w.log.entries[0], "You drop the Dagger.");
    w.entities[item].equipped = Some(Equipped { owner: p, slot: EquipmentSlot::Melee });
    w.entities[p].wants_to_remove_item = Some(WantsToRemoveItem { item });
    ItemRemoveSystem {}.run(&mut w);
    assert!(w.entities[item].equipped.is_none());
    assert_eq!(w.entities[item].in_backpack, Some(InBackpack { owner: p }));
    assert!(w.entities[p].wants_to_remove_item.is_none());
    assert_eq!(w.log.entries[0], "You unequip the Dagger.");
}

#[test]
fn run_state_table() {
    assert_eq!(
        next_run_state(RunState::PreRun, FrameEvent::Idle),
        (RunState::AwaitingInput, FrameAction::RunSystems)
    );
    assert_eq!(
        next_run_state(RunState::PlayerTurn, FrameEvent::Idle),
        (RunState::MonsterTurn, FrameAction::RunSystems)
    );
    assert_eq!(
        next_run_state(RunState::SaveGame, FrameEvent::Idle),
        (RunState::MainMenu { menu_selection: MainMenuSelection::LoadGame }, FrameAction::WriteSave)
    );
    assert_eq!(
        next_run_state(RunState::ShowInventory, FrameEvent::ItemChosen { item: 4, ranged: Some(6) }),
        (RunState::ShowTargeting { range: 6, item: 4 }, FrameAction::Nothing)
    );
    assert_eq!(
        next_run_state(RunState::ShowTargeting { range: 6, item: 4 }, FrameEvent::TargetChosen { target: Point::new(1, 2) }),
        (RunState::PlayerTurn, FrameAction::UseItem { item: 4, target: Some(Point::new(1, 2)) })
    );
    assert_eq!(
        next_run_state(RunState::ShowDropItem, FrameEvent::Cancelled),
        (RunState::AwaitingInput, FrameAction::Nothing)
    );
    assert_eq!(
        next_run_state(RunState::GameOver, FrameEvent::Acknowledged),
        (RunState::MainMenu { menu_selection: MainMenuSelection::NewGame }, FrameAction::ResetWorld)
    );
    assert_eq!(
        next_run_state(RunState::NextLevel, FrameEvent::Idle),
        (RunState::PreRun, FrameAction::DescendLevel)
    );
}

#[test]
fn tick_queues_the_chosen_item() {
    let mut w = empty_world();
    let p = player(&mut w, 2, 2);
    w.player_entity = p;
    w.run_state = RunState::ShowInventory;
    let mut s = State { ecs: w };
    let action = s.tick(FrameEvent::ItemChosen { item: 0, ranged: None }, None);
    assert_eq!(action, FrameAction::UseItem { item: 0, target: None });
    assert_eq!(s.ecs.run_state, RunState::PlayerTurn);
    assert!(s.ecs.entities[p].wants_to_use_item.is_some());
}
