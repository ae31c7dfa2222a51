use vstd::prelude::*;
use vstd::string::StringExecFns;
use crate::components::{
    AreaOfEffect, BlocksTile, Color, CombatStats, Confusion, Consumable, DefenseBonus, Entity,
    EquipmentSlot, Equippable, InflictsDamage, Item, MeleePowerBonus, Monster, Name, Player,
    Position, ProvidesHealing, Ranged, Renderable, Viewshed,
};
use crate::ecs::{vacant, EntityRecord, World};
use crate::random::rng_range;
use crate::random_table::RandomTable;
use crate::rect::Rect;

verus! {

/// The deepest level whose spawn weights (32 + 3 * depth in all) still fit
/// in an `i32`.
pub const MAX_DEPTH: i32 = 715827871;

/// The most monsters and items that one room receives.
pub const MAX_SPAWNS: i32 = 4;

/// The kinds of thing the spawner places, in the order of its table.
pub const GOBLIN: usize = 0;
pub const ORC: usize = 1;
pub const HEALTH_POTION: usize = 2;
pub const MAGIC_MISSILE_SCROLL: usize = 3;
pub const FIREBALL_SCROLL: usize = 4;
pub const CONFUSION_SCROLL: usize = 5;
pub const DAGGER: usize = 6;
pub const SHIELD: usize = 7;

/// The record of a newly made player standing at `(x, y)`.
pub open spec fn is_new_player(r: EntityRecord, x: i32, y: i32) -> bool {
    &&& r.alive
    &&& r.position == Some(Position { x, y })
    &&& r.player == Some(Player {})
    &&& r.renderable is Some && r.renderable.unwrap().render_order == 0
    &&& r.viewshed is Some && r.viewshed.unwrap().visible_tiles@.len() == 0
        && r.viewshed.unwrap().range == 8 && r.viewshed.unwrap().dirty
    &&& r.name is Some && r.name.unwrap().name@ == "Player"@
    &&& r.combat_stats == Some(CombatStats { max_hp: 30, hp: 30, defense: 2, power: 5 })
    &&& r == EntityRecord {
        alive: true,
        position: r.position,
        renderable: r.renderable,
        player: r.player,
        viewshed: r.viewshed,
        name: r.name,
        combat_stats: r.combat_stats,
        ..vacant()
    }
}

fn rgb(r: u8, g: u8, b: u8) -> (c: Color)
    ensures
        c == (Color { r, g, b }),
{
    Color { r, g, b }
}

fn named(text: &str) -> (n: Option<Name>)
    ensures
        n is Some && n.unwrap().name@ == text@,
{
    Some(Name { name: String::from_str(text) })
}

/// Makes the player at `(x, y)`.
pub fn player(ecs: &mut World, x: i32, y: i32) -> (e: Entity)
    requires
        old(ecs).entities@.len() < usize::MAX,
    ensures
        e == old(ecs).entities@.len(),
        final(ecs).entities@.len() == old(ecs).entities@.len() + 1,
        final(ecs).entities@.drop_last() == old(ecs).entities@,
        is_new_player(final(ecs).entities@[e as int], x, y),
        final(ecs).map == old(ecs).map,
        final(ecs).log == old(ecs).log,
        final(ecs).run_state == old(ecs).run_state,
        final(ecs).player_entity == old(ecs).player_entity,
        final(ecs).player_pos == old(ecs).player_pos,
{
    let e = ecs.create_entity();
    ecs.entities[e].position = Some(Position { x, y });
    ecs.entities[e].renderable = Some(
        Renderable { glyph: 64, fg: rgb(255, 255, 0), bg: rgb(0, 0, 0), render_order: 0 },
    );
    ecs.entities[e].player = Some(Player {});
    ecs.entities[e].viewshed = Some(Viewshed { visible_tiles: Vec::new(), range: 8, dirty: true });
    ecs.entities[e].name = named("Player");
    ecs.entities[e].combat_stats = Some(CombatStats { max_hp: 30, hp: 30, defense: 2, power: 5 });
    proof {
        assert(ecs.entities@.drop_last() =~= old(ecs).entities@);
    }
    e
}

/// Whether a spawned record is a monster: it blocks its tile, fights, sees
/// eight tiles, and is named.
pub open spec fn is_monster(r: EntityRecord) -> bool {
    &&& r.monster is Some
    &&& r.blocks_tile is Some
    &&& r.combat_stats is Some
    &&& r.viewshed is Some && r.viewshed.unwrap().range == 8 && r.viewshed.unwrap().dirty
    &&& r.item is None
}

/// Whether a spawned record is an item lying on the floor.
pub open spec fn is_floor_item(r: EntityRecord) -> bool {
    &&& r.item is Some
    &&& r.monster is None
    &&& r.blocks_tile is None
    &&& r.in_backpack is None
    &&& r.equipped is None
}

/// The record that `kind` makes at `(x, y)`.
pub open spec fn spawned_as(r: EntityRecord, kind: usize, x: i32, y: i32) -> bool {
    &&& r.alive
    &&& r.position == Some(Position { x, y })
    &&& r.renderable is Some
    &&& r.name is Some
    &&& r.player is None
    &&& if kind == GOBLIN {
        is_monster(r) && r.combat_stats == Some(
            CombatStats { max_hp: 16, hp: 16, defense: 1, power: 4 },
        ) && r.name.unwrap().name@ == "Goblin"@
    } else if kind == ORC {
        is_monster(r) && r.combat_stats == Some(
            CombatStats { max_hp: 16, hp: 16, defense: 1, power: 4 },
        ) && r.name.unwrap().name@ == "Orc"@
    } else if kind == HEALTH_POTION {
        is_floor_item(r) && r.consumable is Some && r.provides_healing == Some(
            ProvidesHealing { heal_amount: 8 },
        )
    } else if kind == MAGIC_MISSILE_SCROLL {
        is_floor_item(r) && r.consumable is Some && r.ranged == Some(Ranged { range: 6 })
            && r.inflicts_damage == Some(InflictsDamage { damage: 8 })
    } else if kind == FIREBALL_SCROLL {
        is_floor_item(r) && r.consumable is Some && r.ranged == Some(Ranged { range: 6 })
            && r.inflicts_damage == Some(InflictsDamage { damage: 20 }) && r.area_of_effect == Some(
            AreaOfEffect { radius: 3 },
        )
    } else if kind == CONFUSION_SCROLL {
        is_floor_item(r) && r.consumable is Some && r.ranged == Some(Ranged { range: 6 })
            && r.confusion == Some(Confusion { turns: 4 })
    } else if kind == DAGGER {
        is_floor_item(r) && r.consumable is None && r.equippable == Some(
            Equippable { slot: EquipmentSlot::Melee },
        ) && r.melee_power_bonus == Some(MeleePowerBonus { power: 2 })
    } else {
        is_floor_item(r) && r.consumable is None && r.equippable == Some(
            Equippable { slot: EquipmentSlot::Shield },
        ) && r.defense_bonus == Some(DefenseBonus { defense: 1 })
    }
}

/// Places one thing of the given kind at `(x, y)`.
pub fn spawn_kind(ecs: &mut World, kind: usize, x: i32, y: i32) -> (e: Entity)
    requires
        old(ecs).entities@.len() < usize::MAX,
    ensures
        e == old(ecs).entities@.len(),
        final(ecs).entities@.len() == old(ecs).entities@.len() + 1,
        final(ecs).entities@.drop_last() == old(ecs).entities@,
        spawned_as(final(ecs).entities@[e as int], kind, x, y),
        final(ecs).map == old(ecs).map,
        final(ecs).log == old(ecs).log,
        final(ecs).run_state == old(ecs).run_state,
        final(ecs).player_entity == old(ecs).player_entity,
        final(ecs).player_pos == old(ecs).player_pos,
{
    let e = ecs.create_entity();
    ecs.entities[e].position = Some(Position { x, y });
    if kind == GOBLIN || kind == ORC {
        let glyph: u8 = if kind == GOBLIN { 103 } else { 111 };
        ecs.entities[e].renderable = Some(
            Renderable { glyph, fg: rgb(255, 0, 0), bg: rgb(0, 0, 0), render_order: 1 },
        );
        ecs.entities[e].viewshed = Some(
            Viewshed { visible_tiles: Vec::new(), range: 8, dirty: true },
        );
        ecs.entities[e].monster = Some(Monster {});
        ecs.entities[e].name = if kind == GOBLIN { named("Goblin") } else { named("Orc") };
        ecs.entities[e].blocks_tile = Some(BlocksTile {});
        ecs.entities[e].combat_stats = Some(
            CombatStats { max_hp: 16, hp: 16, defense: 1, power: 4 },
        );
    } else {
        ecs.entities[e].item = Some(Item {});
        if kind == HEALTH_POTION {
            ecs.entities[e].renderable = Some(
                Renderable { glyph: 173, fg: rgb(255, 0, 255), bg: rgb(0, 0, 0), render_order: 2 },
            );
            ecs.entities[e].name = named("Health Potion");
            ecs.entities[e].consumable = Some(Consumable {});
            ecs.entities[e].provides_healing = Some(ProvidesHealing { heal_amount: 8 });
        } else if kind == MAGIC_MISSILE_SCROLL || kind == FIREBALL_SCROLL || kind
            == CONFUSION_SCROLL {
            ecs.entities[e].renderable = Some(
                Renderable { glyph: 41, fg: rgb(0, 255, 255), bg: rgb(0, 0, 0), render_order: 2 },
            );
            ecs.entities[e].consumable = Some(Consumable {});
            ecs.entities[e].ranged = Some(Ranged { range: 6 });
            if kind == MAGIC_MISSILE_SCROLL {
                ecs.entities[e].name = named("Magic Missile Scroll");
                ecs.entities[e].inflicts_damage = Some(InflictsDamage { damage: 8 });
            } else if kind == FIREBALL_SCROLL {
                ecs.entities[e].name = named("Fireball Scroll");
                ecs.entities[e].inflicts_damage = Some(InflictsDamage { damage: 20 });
                ecs.entities[e].area_of_effect = Some(AreaOfEffect { radius: 3 });
            } else {
                ecs.entities[e].name = named("Confusion Scroll");
                ecs.entities[e].confusion = Some(Confusion { turns: 4 });
            }
        } else if kind == DAGGER {
            ecs.entities[e].renderable = Some(
                Renderable { glyph: 47, fg: rgb(0, 255, 255), bg: rgb(0, 0, 0), render_order: 2 },
            );
            ecs.entities[e].name = named("Dagger");
            ecs.entities[e].equippable = Some(Equippable { slot: EquipmentSlot::Melee });
            ecs.entities[e].melee_power_bonus = Some(MeleePowerBonus { power: 2 });
        } else {
            ecs.entities[e].renderable = Some(
                Renderable { glyph: 40, fg: rgb(0, 255, 255), bg: rgb(0, 0, 0), render_order: 2 },
            );
            ecs.entities[e].name = named("Shield");
            ecs.entities[e].equippable = Some(Equippable { slot: EquipmentSlot::Shield });
            ecs.entities[e].defense_bonus = Some(DefenseBonus { defense: 1 });
        }
    }
    proof {
        assert(ecs.entities@.drop_last() =~= old(ecs).entities@);
    }
    e
}

/// The weights with which each kind is drawn; later levels hold more orcs.
pub fn spawn_table(depth: i32) -> (t: RandomTable)
    requires
        0 <= depth <= MAX_DEPTH,
    ensures
        t.wf(),
        t.entries@.len() == 8,
{
    RandomTable::new().add("Goblin", 10).add("Orc", 1 + depth).add("Health Potion", 7).add(
        "Magic Missile Scroll",
        4,
    ).add("Fireball Scroll", 2 + depth).add("Confusion Scroll", 2 + depth).add("Dagger", 3).add(
        "Shield",
        3,
    )
}

/// Whether `(x, y)` lies in the carved interior of `room`.
pub open spec fn inside_room(room: Rect, x: int, y: int) -> bool {
    room.x1 < x <= room.x2 && room.y1 < y <= room.y2
}

/// Fills a room with a few monsters and items drawn from the spawn table,
/// each on a tile of its own inside the room. Entities already in the store
/// are left as they were.
pub fn spawn_room(ecs: &mut World, room: &Rect, depth: i32, rng: &mut rltk::RandomNumberGenerator)
    requires
        old(ecs).entities@.len() < usize::MAX - MAX_SPAWNS,
        0 <= depth <= MAX_DEPTH,
        0 <= room.x1 && room.x1 + 2 <= room.x2 && room.x2 <= 1000,
        0 <= room.y1 && room.y1 + 2 <= room.y2 && room.y2 <= 1000,
    ensures
        old(ecs).entities@.len() <= final(ecs).entities@.len() <= old(ecs).entities@.len()
            + MAX_SPAWNS,
        final(ecs).entities@.subrange(0, old(ecs).entities@.len() as int) == old(ecs).entities@,
        forall|e: int|
            old(ecs).entities@.len() <= e < final(ecs).entities@.len() ==> {
                let r = #[trigger] final(ecs).entities@[e];
                &&& r.alive
                &&& r.player is None
                &&& r.position is Some
                &&& inside_room(*room, r.position.unwrap().x as int, r.position.unwrap().y as int)
                &&& exists|kind: usize|
                    kind <= SHIELD && #[trigger] spawned_as(
                        r,
                        kind,
                        r.position.unwrap().x,
                        r.position.unwrap().y,
                    )
            },
        forall|e1: int, e2: int|
            old(ecs).entities@.len() <= e1 < e2 < final(ecs).entities@.len() ==> (
            #[trigger] final(ecs).entities@[e1]).position != (
            #[trigger] final(ecs).entities@[e2]).position,
        final(ecs).map == old(ecs).map,
        final(ecs).log == old(ecs).log,
        final(ecs).run_state == old(ecs).run_state,
        final(ecs).player_entity == old(ecs).player_entity,
        final(ecs).player_pos == old(ecs).player_pos,
{
    let table = spawn_table(depth);
    let n0 = ecs.entities.len();
    let count = rng_range(rng, 0, MAX_SPAWNS + 1);
    let mut tries: i32 = 0;
    while tries < count
        invariant
            0 <= tries <= count <= MAX_SPAWNS,
            table.wf(),
            table.entries@.len() == 8,
            n0 == old(ecs).entities@.len(),
            n0 < usize::MAX - MAX_SPAWNS,
            n0 <= ecs.entities@.len() <= n0 + tries,
            0 <= room.x1 && room.x1 + 2 <= room.x2 && room.x2 <= 1000,
            0 <= room.y1 && room.y1 + 2 <= room.y2 && room.y2 <= 1000,
            ecs.entities@.subrange(0, n0 as int) == old(ecs).entities@,
            forall|e: int|
                n0 <= e < ecs.entities@.len() ==> {
                    let r = #[trigger] ecs.entities@[e];
                    &&& r.alive
                    &&& r.player is None
                    &&& r.position is Some
                    &&& inside_room(*room, r.position.unwrap().x as int, r.position.unwrap().y as int)
                    &&& exists|kind: usize|
                        kind <= SHIELD && #[trigger] spawned_as(
                            r,
                            kind,
                            r.position.unwrap().x,
                            r.position.unwrap().y,
                        )
                },
            forall|e1: int, e2: int|
                n0 <= e1 < e2 < ecs.entities@.len() ==> (#[trigger] ecs.entities@[e1]).position != (
                #[trigger] ecs.entities@[e2]).position,
            ecs.map == old(ecs).map,
            ecs.log == old(ecs).log,
            ecs.run_state == old(ecs).run_state,
            ecs.player_entity == old(ecs).player_entity,
            ecs.player_pos == old(ecs).player_pos,
        decreases count - tries,
    {
        let x = rng_range(rng, room.x1 + 1, room.x2 + 1);
        let y = rng_range(rng, room.y1 + 1, room.y2 + 1);
        let mut free = true;
        let mut k: usize = n0;
        while k < ecs.entities.len()
            invariant
                n0 <= k <= ecs.entities@.len(),
                free == forall|j: int|
                    n0 <= j < k ==> (#[trigger] ecs.entities@[j]).position != Some(
                        Position { x, y },
                    ),
            decreases ecs.entities@.len() - k,
        {
            if ecs.entities[k].position == Some(Position { x, y }) {
                free = false;
            }
            k = k + 1;
        }
        if free {
            let draw = rng_range(rng, 0, table.total_weight.max(1));
            let kind = match table.pick_index(draw) {
                Some(k) => k,
                None => GOBLIN,
            };
            assert(kind <= SHIELD);
            let ghost before = ecs.entities@;
            spawn_kind(ecs, kind, x, y);
            proof {
                assert(ecs.entities@.subrange(0, n0 as int) =~= before.subrange(0, n0 as int));
                assert forall|e: int| n0 <= e < before.len() implies ecs.entities@[e] == before[e] by {
                    assert(ecs.entities@.drop_last()[e] == before[e]);
                }
                let last = before.len() as int;
                assert(spawned_as(ecs.entities@[last], kind, x, y));
                assert forall|e: int| n0 <= e < ecs.entities@.len() implies {
                    let r = #[trigger] ecs.entities@[e];
                    &&& r.alive
                    &&& r.player is None
                    &&& r.position is Some
                    &&& inside_room(*room, r.position.unwrap().x as int, r.position.unwrap().y as int)
                    &&& exists|kind: usize|
                        kind <= SHIELD && #[trigger] spawned_as(
                            r,
                            kind,
                            r.position.unwrap().x,
                            r.position.unwrap().y,
                        )
                } by {
                    if e < last {
                        assert(ecs.entities@[e] == before[e]);
                    } else {
                        let r = ecs.entities@[e];
                        assert(spawned_as(r, kind, x, y));
                        assert(spawned_as(r, kind, r.position.unwrap().x, r.position.unwrap().y));
                    }
                }
                assert forall|e1: int, e2: int|
                    n0 <= e1 < e2 < ecs.entities@.len() implies (#[trigger] ecs.entities@[e1]).position
                    != (#[trigger] ecs.entities@[e2]).position by {
                    assert(ecs.entities@[e1] == before[e1]);
                    if e2 < last {
                        assert(ecs.entities@[e2] == before[e2]);
                    }
                }
            }
        }
        tries = tries + 1;
    }
}

} // verus!
