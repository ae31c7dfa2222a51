use roguelike::components::{CombatStats, SufferDamage, WantsToMelee};
use roguelike::ecs::World;
use roguelike::game_log::GameLog;
use roguelike::map::{GameMap, Point, TileType, MAP_HEIGHT, MAP_WIDTH, MAX_SIZE, MIN_SIZE};
use roguelike::monster_ai_system::takes_turn;
use roguelike::run_state::{item_chosen, FrameAction, FrameEvent};
use roguelike::saveload_system::save_game;
use roguelike::spawner::{player, spawn_kind, FIREBALL_SCROLL, GOBLIN, MAX_DEPTH};
use roguelike::state::{MainMenuSelection, RunState, State};
use roguelike::visibility_system::needs_view;

fn game_in(state: RunState) -> (State, usize) {
    let mut w = World::new(GameMap::new_map_rooms_and_corridors(1), GameLog { entries: Vec::new() }, state, Point::new(5, 5));
    let p = player(&mut w, 5, 5);
    w.player_entity = p;
    (State { ecs: w }, p)
}

#[test]
fn fresh_map_has_wall_border_and_sized_rooms() {
    let map = GameMap::new_map_rooms_and_corridors(2);
    for x in 0..MAP_WIDTH as i32 {
        assert_eq!(map.tiles[map.xy_idx(x, 0)], TileType::Wall);
        assert_eq!(map.tiles[map.xy_idx(x, MAP_HEIGHT as i32 - 1)], TileType::Wall);
    }
    for y in 0..MAP_HEIGHT as i32 {
        assert_eq!(map.tiles[map.xy_idx(0, y)], TileType::Wall);
        assert_eq!(map.tiles[map.xy_idx(MAP_WIDTH as i32 - 1, y)], TileType::Wall);
    }
    for r in map.rooms.iter() {
        assert!(r.x2 - r.x1 >= MIN_SIZE && r.x2 - r.x1 < MAX_SIZE);
        assert!(r.y2 - r.y1 >= MIN_SIZE && r.y2 - r.y1 < MAX_SIZE);
        assert_eq!(map.tiles[map.xy_idx(r.x1 + 1, r.y1 + 1)], TileType::Floor);
    }
    assert!(map.revealed_tiles.iter().all(|b| !*b));
    assert!(map.tile_content.iter().all(|c| c.is_empty()));
}

#[test]
fn systems_frame_resolves_attacks_and_advances() {
    let (mut s, p) = game_in(RunState::PlayerTurn);
    let m = spawn_kind(&mut s.ecs, GOBLIN, 6, 5);
    s.ecs.entities[m].combat_stats = Some(CombatStats { max_hp: 3, hp: 3, defense: 0, power: 1 });
    s.ecs.entities[p].wants_to_melee = Some(WantsToMelee { target: m });
    let action = s.tick(FrameEvent::Idle, None);
    assert_eq!(action, FrameAction::RunSystems);
    assert_eq!(s.ecs.run_state, RunState::MonsterTurn);
    assert!(!s.ecs.entities[m].alive);
    assert!(s.ecs.entities[p].wants_to_melee.is_none());
    assert_eq!(s.ecs.log.entries[0], "Goblin is dead");
}

#[test]
fn player_killed_in_a_systems_frame_ends_the_game() {
    let (mut s, p) = game_in(RunState::MonsterTurn);
    s.ecs.entities[p].suffer_damage = Some(SufferDamage { amount: 100 });
    s.tick(FrameEvent::Idle, None);
    assert_eq!(s.ecs.run_state, RunState::GameOver);
    assert!(s.ecs.entities[p].alive);
}

#[test]
fn next_level_frame_descends() {
    let (mut s, p) = game_in(RunState::NextLevel);
    let m = spawn_kind(&mut s.ecs, GOBLIN, 9, 9);
    assert_eq!(s.tick(FrameEvent::Idle, None), FrameAction::DescendLevel);
    assert_eq!(s.ecs.run_state, RunState::PreRun);
    assert_eq!(s.ecs.map.depth, 2);
    assert!(s.ecs.entities[p].alive && !s.ecs.entities[m].alive);
}

#[test]
fn game_over_acknowledged_resets() {
    let (mut s, p) = game_in(RunState::GameOver);
    assert_eq!(s.tick(FrameEvent::Acknowledged, None), FrameAction::ResetWorld);
    assert_eq!(s.ecs.run_state, RunState::MainMenu { menu_selection: MainMenuSelection::NewGame });
    assert!(!s.ecs.entities[p].alive);
    assert!(s.ecs.entities[s.ecs.player_entity].player.is_some());
}

#[test]
fn loading_from_the_menu_restores_the_save() {
    let (mut s, p) = game_in(RunState::MainMenu { menu_selection: MainMenuSelection::LoadGame });
    let data = save_game(&s.ecs);
    s.ecs.entities[p].combat_stats = None;
    let action = s.tick(FrameEvent::MenuChosen { selected: MainMenuSelection::LoadGame }, Some(data));
    assert_eq!(action, FrameAction::LoadSave);
    assert_eq!(s.ecs.run_state, RunState::AwaitingInput);
    assert!(s.ecs.entities[p].combat_stats.is_some());
    assert_eq!(s.ecs.log.entries[0], "Loaded game from save");
}

#[test]
fn saving_leaves_the_world() {
    let (mut s, _) = game_in(RunState::SaveGame);
    let before = s.ecs.entities.len();
    assert_eq!(s.tick(FrameEvent::Idle, None), FrameAction::WriteSave);
    assert_eq!(s.ecs.run_state, RunState::MainMenu { menu_selection: MainMenuSelection::LoadGame });
    assert_eq!(s.ecs.entities.len(), before);
}

#[test]
fn choosing_items_and_who_acts() {
    let (mut s, p) = game_in(RunState::AwaitingInput);
    let scroll = spawn_kind(&mut s.ecs, FIREBALL_SCROLL, 5, 5);
    assert_eq!(item_chosen(&s.ecs, scroll), FrameEvent::ItemChosen { item: scroll, ranged: Some(6) });
    assert_eq!(item_chosen(&s.ecs, p), FrameEvent::ItemChosen { item: p, ranged: None });
    let g = spawn_kind(&mut s.ecs, GOBLIN, 7, 7);
    assert!(needs_view(&s.ecs, g));
    assert!(!needs_view(&s.ecs, scroll));
    assert!(!takes_turn(&s.ecs, g));
    s.ecs.run_state = RunState::MonsterTurn;
    assert!(takes_turn(&s.ecs, g));
    assert!(!takes_turn(&s.ecs, p));
    assert!(MAX_DEPTH > 1000);
}
