use vstd::prelude::*;
use crate::components::{
    AreaOfEffect, BlocksTile, CombatStats, Confusion, Consumable, DefenseBonus, Entity, Equippable,
    Equipped, InBackpack, InflictsDamage, Item, MeleePowerBonus, Monster, Name, Player, Position,
    ProvidesHealing, Ranged, Renderable, SufferDamage, Viewshed, WantsToDropItem, WantsToMelee,
    WantsToPickupItem, WantsToRemoveItem, WantsToUseItem,
};
use crate::game_log::GameLog;
use crate::map::{GameMap, Point};
use crate::state::RunState;

verus! {

/// Everything that one entity carries: each component is present or not.
pub struct EntityRecord {
    pub alive: bool,
    pub position: Option<Position>,
    pub renderable: Option<Renderable>,
    pub player: Option<Player>,
    pub viewshed: Option<Viewshed>,
    pub monster: Option<Monster>,
    pub name: Option<Name>,
    pub blocks_tile: Option<BlocksTile>,
    pub combat_stats: Option<CombatStats>,
    pub wants_to_melee: Option<WantsToMelee>,
    pub suffer_damage: Option<SufferDamage>,
    pub item: Option<Item>,
    pub in_backpack: Option<InBackpack>,
    pub wants_to_pickup_item: Option<WantsToPickupItem>,
    pub wants_to_use_item: Option<WantsToUseItem>,
    pub wants_to_drop_item: Option<WantsToDropItem>,
    pub wants_to_remove_item: Option<WantsToRemoveItem>,
    pub consumable: Option<Consumable>,
    pub provides_healing: Option<ProvidesHealing>,
    pub ranged: Option<Ranged>,
    pub inflicts_damage: Option<InflictsDamage>,
    pub area_of_effect: Option<AreaOfEffect>,
    pub confusion: Option<Confusion>,
    pub equippable: Option<Equippable>,
    pub equipped: Option<Equipped>,
    pub melee_power_bonus: Option<MeleePowerBonus>,
    pub defense_bonus: Option<DefenseBonus>,
}

/// The record of a slot that holds no live entity.
pub open spec fn vacant() -> EntityRecord {
    EntityRecord {
        alive: false,
        position: None,
        renderable: None,
        player: None,
        viewshed: None,
        monster: None,
        name: None,
        blocks_tile: None,
        combat_stats: None,
        wants_to_melee: None,
        suffer_damage: None,
        item: None,
        in_backpack: None,
        wants_to_pickup_item: None,
        wants_to_use_item: None,
        wants_to_drop_item: None,
        wants_to_remove_item: None,
        consumable: None,
        provides_healing: None,
        ranged: None,
        inflicts_damage: None,
        area_of_effect: None,
        confusion: None,
        equippable: None,
        equipped: None,
        melee_power_bonus: None,
        defense_bonus: None,
    }
}

impl EntityRecord {
    pub fn vacant() -> (r: EntityRecord)
        ensures
            r == vacant(),
    {
        EntityRecord {
            alive: false,
            position: None,
            renderable: None,
            player: None,
            viewshed: None,
            monster: None,
            name: None,
            blocks_tile: None,
            combat_stats: None,
            wants_to_melee: None,
            suffer_damage: None,
            item: None,
            in_backpack: None,
            wants_to_pickup_item: None,
            wants_to_use_item: None,
            wants_to_drop_item: None,
            wants_to_remove_item: None,
            consumable: None,
            provides_healing: None,
            ranged: None,
            inflicts_damage: None,
            area_of_effect: None,
            confusion: None,
            equippable: None,
            equipped: None,
            melee_power_bonus: None,
            defense_bonus: None,
        }
    }
}

/// The entity store together with the singleton resources.
pub struct World {
    pub entities: Vec<EntityRecord>,
    pub map: GameMap,
    pub log: GameLog,
    pub run_state: RunState,
    pub player_entity: Entity,
    pub player_pos: Point,
}

impl World {
    pub open spec fn wf(&self) -> bool {
        self.map.wf()
    }

    /// Whether `e` names a live entity.
    pub open spec fn live(&self, e: int) -> bool {
        0 <= e < self.entities@.len() && self.entities@[e].alive
    }

    /// A store with no entities, around the given resources.
    pub fn new(map: GameMap, log: GameLog, run_state: RunState, player_pos: Point) -> (w: World)
        ensures
            w.entities@.len() == 0,
            w.map == map,
            w.log == log,
            w.run_state == run_state,
            w.player_entity == 0,
            w.player_pos == player_pos,
    {
        World { entities: Vec::new(), map, log, run_state, player_entity: 0, player_pos }
    }

    /// Makes a live entity with no components.
    pub fn create_entity(&mut self) -> (e: Entity)
        requires
            old(self).entities@.len() < usize::MAX,
        ensures
            e == old(self).entities@.len(),
            final(self).entities@ == old(self).entities@.push(
                EntityRecord { alive: true, ..vacant() },
            ),
            final(self).map == old(self).map,
            final(self).log == old(self).log,
            final(self).run_state == old(self).run_state,
            final(self).player_entity == old(self).player_entity,
            final(self).player_pos == old(self).player_pos,
    {
        let mut r = EntityRecord::vacant();
        r.alive = true;
        let e = self.entities.len();
        self.entities.push(r);
        e
    }

    /// Removes an entity and every component it carried.
    pub fn delete_entity(&mut self, e: Entity)
        requires
            e < old(self).entities@.len(),
        ensures
            final(self).entities@ == old(self).entities@.update(e as int, vacant()),
            final(self).map == old(self).map,
            final(self).log == old(self).log,
            final(self).run_state == old(self).run_state,
            final(self).player_entity == old(self).player_entity,
            final(self).player_pos == old(self).player_pos,
    {
        self.entities.set(e, EntityRecord::vacant());
    }
}

} // verus!
