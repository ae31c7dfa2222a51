use vstd::prelude::*;
use crate::components::{Name, Viewshed};
use crate::ecs::{vacant, EntityRecord, World};
use crate::game_log::GameLog;
use crate::map::{GameMap, Point, MAP_COUNT};

verus! {

/// Everything a save holds: the entity store, the map without its
/// occupancy index, and the log.
pub struct SaveData {
    pub entities: Vec<EntityRecord>,
    pub map: GameMap,
    pub game_log: GameLog,
}

/// The map as it is kept across a save: equal but for its occupancy index,
/// which is left empty on every tile.
pub open spec fn saved_map(a: GameMap, b: GameMap) -> bool {
    &&& b.tiles@ == a.tiles@
    &&& b.rooms@ == a.rooms@
    &&& b.width == a.width
    &&& b.height == a.height
    &&& b.revealed_tiles@ == a.revealed_tiles@
    &&& b.visible_tiles@ == a.visible_tiles@
    &&& b.blocked@ == a.blocked@
    &&& b.bloodstains@ == a.bloodstains@
    &&& b.depth == a.depth
    &&& b.tile_content@.len() == MAP_COUNT
    &&& forall|i: int| 0 <= i < MAP_COUNT ==> (#[trigger] b.tile_content@[i]).len() == 0
}

/// The last live entity among the first `n` that is a player with a position.
pub open spec fn located_player(rs: Seq<EntityRecord>, n: int) -> Option<int>
    decreases n,
{
    if n <= 0 {
        None
    } else if rs[n - 1].alive && rs[n - 1].player is Some && rs[n - 1].position is Some {
        Some(n - 1)
    } else {
        located_player(rs, n - 1)
    }
}

/// Two records that carry the same components with the same values.
pub open spec fn same_record(a: EntityRecord, b: EntityRecord) -> bool {
    &&& a == EntityRecord { viewshed: a.viewshed, ..b }
    &&& match (a.viewshed, b.viewshed) {
        (Some(x), Some(y)) => x.visible_tiles@ == y.visible_tiles@ && x.range == y.range && x.dirty
            == y.dirty,
        (None, None) => true,
        _ => false,
    }
}

pub open spec fn same_records(a: Seq<EntityRecord>, b: Seq<EntityRecord>) -> bool {
    &&& a.len() == b.len()
    &&& forall|i: int| 0 <= i < a.len() ==> same_record(#[trigger] a[i], b[i])
}

/// What saving produces from a world.
pub open spec fn saved(w: World, d: SaveData) -> bool {
    &&& same_records(d.entities@, w.entities@)
    &&& saved_map(w.map, d.map)
    &&& d.game_log.view_texts() == w.log.view_texts()
}

/// What loading a save does to a world.
pub open spec fn loaded(w0: World, d: SaveData, w1: World) -> bool {
    let found = located_player(d.entities@, d.entities@.len() as int);
    &&& w1.entities@ == d.entities@
    &&& saved_map(d.map, w1.map)
    &&& w1.log.view_texts() == seq!["Loaded game from save"@] + d.game_log.view_texts()
    &&& w1.run_state == w0.run_state
    &&& w1.player_entity == (if let Some(p) = found { p as usize } else { w0.player_entity })
    &&& w1.player_pos == (if let Some(p) = found {
        Point {
            x: d.entities@[p].position.unwrap().x,
            y: d.entities@[p].position.unwrap().y,
        }
    } else {
        w0.player_pos
    })
}

fn copy_name(n: &Option<Name>) -> (r: Option<Name>)
    ensures
        r == *n,
{
    match n {
        Some(n) => Some(Name { name: n.name.clone() }),
        None => None,
    }
}

fn copy_viewshed(v: &Option<Viewshed>) -> (r: Option<Viewshed>)
    ensures
        same_record(EntityRecord { viewshed: r, ..vacant() }, EntityRecord { viewshed: *v, ..vacant() }),
{
    match v {
        Some(v) => {
            let tiles = v.visible_tiles.clone();
            proof {
                assert(tiles@ =~= v.visible_tiles@);
            }
            Some(Viewshed { visible_tiles: tiles, range: v.range, dirty: v.dirty })
        },
        None => None,
    }
}

/// An exact copy of an entity record.
pub fn copy_record(r: &EntityRecord) -> (c: EntityRecord)
    ensures
        same_record(c, *r),
{
    EntityRecord {
        alive: r.alive,
        position: r.position,
        renderable: r.renderable,
        player: r.player,
        viewshed: copy_viewshed(&r.viewshed),
        monster: r.monster,
        name: copy_name(&r.name),
        blocks_tile: r.blocks_tile,
        combat_stats: r.combat_stats,
        wants_to_melee: r.wants_to_melee,
        suffer_damage: r.suffer_damage,
        item: r.item,
        in_backpack: r.in_backpack,
        wants_to_pickup_item: r.wants_to_pickup_item,
        wants_to_use_item: r.wants_to_use_item,
        wants_to_drop_item: r.wants_to_drop_item,
        wants_to_remove_item: r.wants_to_remove_item,
        consumable: r.consumable,
        provides_healing: r.provides_healing,
        ranged: r.ranged,
        inflicts_damage: r.inflicts_damage,
        area_of_effect: r.area_of_effect,
        confusion: r.confusion,
        equippable: r.equippable,
        equipped: r.equipped,
        melee_power_bonus: r.melee_power_bonus,
        defense_bonus: r.defense_bonus,
    }
}

fn empty_content() -> (c: Vec<Vec<usize>>)
    ensures
        c@.len() == MAP_COUNT,
        forall|i: int| 0 <= i < MAP_COUNT ==> (#[trigger] c@[i]).len() == 0,
{
    let mut c: Vec<Vec<usize>> = Vec::new();
    let mut i: usize = 0;
    while i < MAP_COUNT
        invariant
            i <= MAP_COUNT,
            c@.len() == i,
            forall|j: int| 0 <= j < i ==> (#[trigger] c@[j]).len() == 0,
        decreases MAP_COUNT - i,
    {
        c.push(Vec::new());
        i = i + 1;
    }
    c
}

fn copy_map(m: &GameMap) -> (c: GameMap)
    ensures
        saved_map(*m, c),
{
    let tiles = m.tiles.clone();
    let rooms = m.rooms.clone();
    let revealed = m.revealed_tiles.clone();
    let visible = m.visible_tiles.clone();
    let blocked = m.blocked.clone();
    let blood = m.bloodstains.clone();
    proof {
        assert(tiles@ =~= m.tiles@);
        assert(rooms@ =~= m.rooms@);
        assert(revealed@ =~= m.revealed_tiles@);
        assert(visible@ =~= m.visible_tiles@);
        assert(blocked@ =~= m.blocked@);
        assert(blood@ =~= m.bloodstains@);
    }
    GameMap {
        tiles,
        rooms,
        width: m.width,
        height: m.height,
        revealed_tiles: revealed,
        visible_tiles: visible,
        blocked,
        bloodstains: blood,
        depth: m.depth,
        tile_content: empty_content(),
    }
}

fn copy_log(log: &GameLog) -> (c: GameLog)
    ensures
        c.view_texts() == log.view_texts(),
{
    let entries = log.entries.clone();
    proof {
        assert(entries@ =~= log.entries@);
    }
    GameLog { entries }
}

/// Takes a save of the world: its entities, its map (without the
/// occupancy index) and its log.
pub fn save_game(ecs: &World) -> (d: SaveData)
    ensures
        saved(*ecs, d),
{
    let mut entities: Vec<EntityRecord> = Vec::new();
    let mut i: usize = 0;
    while i < ecs.entities.len()
        invariant
            i <= ecs.entities@.len(),
            same_records(entities@, ecs.entities@.subrange(0, i as int)),
        decreases ecs.entities@.len() - i,
    {
        entities.push(copy_record(&ecs.entities[i]));
        i = i + 1;
    }
    proof {
        assert(ecs.entities@.subrange(0, i as int) =~= ecs.entities@);
    }
    SaveData { entities, map: copy_map(&ecs.map), game_log: copy_log(&ecs.log) }
}

/// Replaces the world's entities, map and log with those of a save, notes
/// the load in the log, and finds the player again.
pub fn load_game(ecs: &mut World, data: SaveData)
    ensures
        loaded(*old(ecs), data, *final(ecs)),
{
    let ghost d = data;
    let SaveData { entities, map, game_log } = data;
    let mut found: Option<usize> = None;
    let mut i: usize = 0;
    while i < entities.len()
        invariant
            i <= entities@.len(),
            entities@ == d.entities@,
            found == (match located_player(entities@, i as int) {
                Some(p) => Some(p as usize),
                None => None::<usize>,
            }),
            forall|p: int|
                located_player(entities@, i as int) == Some(p) ==> 0 <= p < i
                    && entities@[p].position is Some,
        decreases entities@.len() - i,
    {
        let r = &entities[i];
        if r.alive && r.player.is_some() && r.position.is_some() {
            found = Some(i);
        }
        i = i + 1;
    }
    if let Some(p) = found {
        let pos = entities[p].position.unwrap();
        ecs.player_pos = Point { x: pos.x, y: pos.y };
        ecs.player_entity = p;
    }
    ecs.entities = entities;
    let mut fresh = copy_map(&map);
    ecs.map = fresh;
    let mut log = game_log;
    let mut note = String::new();
    note.append("Loaded game from save");
    log.push_front(note);
    ecs.log = log;
}

/// Saving a world and loading the save brings back every entity with the
/// same components under the same identity, the same map, and the same log
/// with one note of the load at its front.
pub proof fn law_save_then_load(w0: World, d: SaveData, w1: World, w2: World)
    requires
        saved(w0, d),
        loaded(w1, d, w2),
    ensures
        same_records(w2.entities@, w0.entities@),
        saved_map(w0.map, w2.map),
        w2.log.view_texts() == seq!["Loaded game from save"@] + w0.log.view_texts(),
{
}

} // verus!
