use roguelike::components::{
    AreaOfEffect, BlocksTile, CombatStats, Consumable, DefenseBonus, EquipmentSlot, Equippable,
    Equipped, InBackpack, InflictsDamage, Item, MeleePowerBonus, Name, Player, Position,
    ProvidesHealing, SufferDamage, WantsToMelee, WantsToUseItem,
};
use roguelike::damage_system::{delete_the_dead, DamageSystem};
use roguelike::ecs::World;
use roguelike::game_log::GameLog;
use roguelike::inventory_system::{use_item, ItemUseSystem};
use roguelike::map::{GameMap, Point, MAP_WIDTH};
use roguelike::melee_combat_system::{melee_damage, MeleeCombatSystem};
use roguelike::player::try_move_player;
use roguelike::state::RunState;

fn empty_world() -> World {
    World::new(GameMap::new(1), GameLog { entries: Vec::new() }, RunState::AwaitingInput, Point::new(0, 0))
}

fn fighter(w: &mut World, name: &str, hp: i32, defense: i32, power: i32) -> usize {
    let e = w.create_entity();
    w.entities[e].name = Some(Name { name: name.to_string() });
    w.entities[e].combat_stats = Some(CombatStats { max_hp: hp, hp, defense, power });
    e
}

#[test]
fn melee_damage_counts_bonuses() {
    assert_eq!(melee_damage(10, 2, 3, 1), 8);
    assert_eq!(melee_damage(5, 0, 10, 0), 0);
    assert_eq!(melee_damage(i32::MAX, i32::MAX, i32::MIN, 0), i32::MAX);
}

#[test]
fn melee_with_equipment_hits_for_eight() {
    let mut w = empty_world();
    let a = fighter(&mut w, "Hero", 20, 0, 10);
    let t = fighter(&mut w, "Orc", 20, 3, 4);
    let sword = w.create_entity();
    w.entities[sword].equipped = Some(Equipped { owner: a, slot: EquipmentSlot::Melee });
    w.entities[sword].melee_power_bonus = Some(MeleePowerBonus { power: 2 });
    let shield = w.create_entity();
    w.entities[shield].equipped = Some(Equipped { owner: t, slot: EquipmentSlot::Shield });
    w.entities[shield].defense_bonus = Some(DefenseBonus { defense: 1 });
    w.entities[a].wants_to_melee = Some(WantsToMelee { target: t });
    MeleeCombatSystem {}.run(&mut w);
    assert_eq!(w.entities[t].suffer_damage, Some(SufferDamage { amount: 8 }));
    assert_eq!(w.log.entries, vec!["Hero hits Orc, for 8 hp.".to_string()]);
    assert!(w.entities[a].wants_to_melee.is_none());
}

#[test]
fn melee_without_damage_logs_and_attaches_nothing() {
    let mut w = empty_world();
    let a = fighter(&mut w, "Rat", 5, 0, 5);
    let t = fighter(&mut w, "Golem", 30, 10, 1);
    w.entities[a].wants_to_melee = Some(WantsToMelee { target: t });
    MeleeCombatSystem {}.run(&mut w);
    assert!(w.entities[t].suffer_damage.is_none());
    assert_eq!(w.log.entries, vec!["Rat is unable to hurt Golem".to_string()]);
}

#[test]
fn hits_from_two_attackers_add_up() {
    let mut w = empty_world();
    let a = fighter(&mut w, "A", 10, 0, 6);
    let b = fighter(&mut w, "B", 10, 0, 4);
    let t = fighter(&mut w, "T", 30, 1, 0);
    w.entities[a].wants_to_melee = Some(WantsToMelee { target: t });
    w.entities[b].wants_to_melee = Some(WantsToMelee { target: t });
    MeleeCombatSystem {}.run(&mut w);
    assert_eq!(w.entities[t].suffer_damage, Some(SufferDamage { amount: 8 }));
    assert_eq!(w.log.entries[0], "B hits T, for 3 hp.");
    assert_eq!(w.log.entries[1], "A hits T, for 5 hp.");
}

#[test]
fn lethal_damage_removes_a_monster() {
    let mut w = empty_world();
    let m = fighter(&mut w, "Goblin", 1, 0, 1);
    w.entities[m].position = Some(Position { x: 3, y: 4 });
    w.entities[m].suffer_damage = Some(SufferDamage { amount: 1 });
    DamageSystem.run(&mut w);
    assert_eq!(w.entities[m].combat_stats.unwrap().hp, 0);
    assert!(w.entities[m].suffer_damage.is_none());
    assert!(w.map.bloodstains[4 * MAP_WIDTH + 3]);
    delete_the_dead(&mut w);
    assert!(!w.entities[m].alive);
    assert!(w.entities[m].name.is_none());
    assert_eq!(w.log.entries[0], "Goblin is dead");
}

#[test]
fn fallen_player_is_kept_and_the_game_ends() {
    let mut w = empty_world();
    let p = fighter(&mut w, "Player", 30, 0, 5);
    w.entities[p].player = Some(Player {});
    w.entities[p].suffer_damage = Some(SufferDamage { amount: 40 });
    DamageSystem.run(&mut w);
    delete_the_dead(&mut w);
    assert!(w.entities[p].alive);
    assert_eq!(w.entities[p].combat_stats.unwrap().hp, -10);
    assert_eq!(w.run_state, RunState::GameOver);
    assert!(w.log.entries.is_empty());
}

#[test]
fn nameless_dead_leave_no_obituary() {
    let mut w = empty_world();
    let e = w.create_entity();
    w.entities[e].combat_stats = Some(CombatStats { max_hp: 5, hp: 0, defense: 0, power: 0 });
    delete_the_dead(&mut w);
    assert!(!w.entities[e].alive);
    assert!(w.log.entries.is_empty());
    assert_eq!(w.run_state, RunState::AwaitingInput);
}

#[test]
fn healing_stops_at_max_hp() {
    let mut w = empty_world();
    let user = fighter(&mut w, "Player", 10, 0, 0);
    w.entities[user].combat_stats = Some(CombatStats { max_hp: 10, hp: 5, defense: 0, power: 0 });
    let potion = w.create_entity();
    w.entities[potion].name = Some(Name { name: "Potion".to_string() });
    w.entities[potion].item = Some(Item {});
    w.entities[potion].provides_healing = Some(ProvidesHealing { heal_amount: 20 });
    w.entities[potion].consumable = Some(Consumable {});
    use_item(&mut w, user, potion, None);
    assert_eq!(w.entities[user].combat_stats.unwrap().hp, 10);
    assert!(!w.entities[potion].alive);
    assert_eq!(w.log.entries[0], "You use the Potion, healing 20 hp.");
}

#[test]
fn area_damage_reaches_neighbours_only() {
    let mut w = empty_world();
    let user = fighter(&mut w, "Player", 10, 0, 0);
    w.player_entity = user;
    w.entities[user].position = Some(Position { x: 1, y: 1 });
    let near = fighter(&mut w, "Near", 10, 0, 0);
    w.entities[near].position = Some(Position { x: 11, y: 11 });
    let centre = fighter(&mut w, "Centre", 10, 0, 0);
    w.entities[centre].position = Some(Position { x: 10, y: 10 });
    let far = fighter(&mut w, "Far", 10, 0, 0);
    w.entities[far].position = Some(Position { x: 12, y: 10 });
    let scroll = w.create_entity();
    w.entities[scroll].name = Some(Name { name: "Fireball".to_string() });
    w.entities[scroll].inflicts_damage = Some(InflictsDamage { damage: 4 });
    w.entities[scroll].area_of_effect = Some(AreaOfEffect { radius: 1 });
    w.entities[scroll].consumable = Some(Consumable {});
    use_item(&mut w, user, scroll, Some(Point::new(10, 10)));
    assert_eq!(w.entities[near].suffer_damage, Some(SufferDamage { amount: 4 }));
    assert_eq!(w.entities[centre].suffer_damage, Some(SufferDamage { amount: 4 }));
    assert!(w.entities[far].suffer_damage.is_none());
    assert!(w.entities[user].suffer_damage.is_none());
    assert!(!w.entities[scroll].alive);
    assert!(w.log.entries.contains(&"You use the Fireball, spreading it around you!".to_string()));
    assert!(w.log.entries.contains(&"It hits Near, for 4 hp.".to_string()));
}

#[test]
fn equipping_swaps_the_slot_and_keeps_the_item() {
    let mut w = empty_world();
    let user = fighter(&mut w, "Player", 10, 0, 0);
    let old_shield = w.create_entity();
    w.entities[old_shield].name = Some(Name { name: "Buckler".to_string() });
    w.entities[old_shield].equippable = Some(Equippable { slot: EquipmentSlot::Shield });
    w.entities[old_shield].equipped = Some(Equipped { owner: user, slot: EquipmentSlot::Shield });
    let shield = w.create_entity();
    w.entities[shield].name = Some(Name { name: "Shield".to_string() });
    w.entities[shield].equippable = Some(Equippable { slot: EquipmentSlot::Shield });
    w.entities[shield].in_backpack = Some(InBackpack { owner: user });
    w.entities[shield].defense_bonus = Some(DefenseBonus { defense: 1 });
    w.entities[user].wants_to_use_item = Some(WantsToUseItem { item: shield, target: None });
    ItemUseSystem {}.run(&mut w);
    assert!(w.entities[shield].alive);
    assert_eq!(w.entities[shield].equipped, Some(Equipped { owner: user, slot: EquipmentSlot::Shield }));
    assert!(w.entities[shield].in_backpack.is_none());
    assert!(w.entities[old_shield].equipped.is_none());
    assert_eq!(w.entities[old_shield].in_backpack, Some(InBackpack { owner: user }));
    assert!(w.entities[user].wants_to_use_item.is_none());
    assert_eq!(w.log.entries[0], "You equip the Shield.");
    assert_eq!(w.log.entries[1], "You unequip the Buckler.");
}

#[test]
fn bumping_into_a_monster_attacks_without_moving() {
    let mut w = empty_world();
    let p = fighter(&mut w, "Player", 10, 0, 5);
    w.player_entity = p;
    w.entities[p].position = Some(Position { x: 5, y: 5 });
    let m = fighter(&mut w, "Orc", 10, 0, 5);
    w.entities[m].position = Some(Position { x: 6, y: 5 });
    w.entities[m].blocks_tile = Some(BlocksTile {});
    try_move_player(1, 0, &mut w);
    assert_eq!(w.entities[p].position, Some(Position { x: 5, y: 5 }));
    assert_eq!(w.entities[p].wants_to_melee, Some(WantsToMelee { target: m }));
}

#[test]
fn moving_onto_an_open_tile_steps() {
    let mut w = empty_world();
    let p = fighter(&mut w, "Player", 10, 0, 5);
    w.player_entity = p;
    w.entities[p].position = Some(Position { x: 5, y: 5 });
    try_move_player(0, 1, &mut w);
    assert_eq!(w.entities[p].position, Some(Position { x: 5, y: 6 }));
    assert_eq!(w.player_pos, Point::new(5, 6));
    w.map.blocked[7 * MAP_WIDTH + 5] = true;
    try_move_player(0, 1, &mut w);
    assert_eq!(w.entities[p].position, Some(Position { x: 5, y: 6 }));
}
