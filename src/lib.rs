//! A turn-based, grid-based dungeon crawler: dungeon generation, an entity
//! store with its components, and the systems that move, fight, heal and
//! carry things, each with a contract proved by Verus.

pub mod rect;
pub mod components;
pub mod map;
pub mod random;
pub mod game_log;
pub mod ecs;
pub mod state;
pub mod melee_combat_system;
pub mod damage_system;
pub mod saveload_system;
pub mod random_table;
pub mod spawner;
pub mod inventory_system;
pub mod player;
pub mod map_indexing_system;
pub mod run_state;
pub mod visibility_system;
pub mod monster_ai_system;
