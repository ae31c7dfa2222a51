use vstd::prelude::*;
use vstd::string::StringExecFns;
use crate::components::{
    CombatStats, Entity, Position, Viewshed, WantsToDropItem, WantsToRemoveItem, WantsToUseItem,
};
use crate::damage_system::{
    after_damage, any_player_falls, damage_pass, death_sweep, delete_the_dead, law_fallen_player_is_kept,
    DamageSystem,
};
use crate::inventory_system::{
    after_pickup, law_item_passes_leave_no_intents, no_melee_or_pickup, drop_pass, pickup_pass, remove_pass, use_pass, ItemCollectionSystem, ItemDropSystem,
    ItemRemoveSystem, ItemUseSystem,
};
use crate::map_indexing_system::{indexing_pass, MapIndexingSystem};
use crate::melee_combat_system::{after_melee, melee_pass, MeleeCombatSystem};
use crate::run_state::{next_run_state, transition, FrameAction, FrameEvent};
use crate::saveload_system::{load_game, loaded, SaveData};
use crate::ecs::{vacant, EntityRecord, World};
use crate::map::{fresh_map, rooms_in_bounds, GameMap, Point};
use crate::rect::{center_x, center_y, half};
use crate::spawner::{inside_room, is_new_player, player, spawn_room, MAX_DEPTH, MAX_SPAWNS};
use crate::game_log::GameLog;

verus! {

/// The option highlighted on the main menu.
#[derive(Clone, Copy, Debug, PartialEq, Eq, Structural)]
pub enum MainMenuSelection {
    NewGame,
    LoadGame,
    Quit,
}

/// The mode the game is in; it advances once per presented frame.
#[derive(Clone, Copy, Debug, PartialEq, Eq, Structural)]
pub enum RunState {
    AwaitingInput,
    PreRun,
    PlayerTurn,
    MonsterTurn,
    ShowInventory,
    ShowDropItem,
    ShowTargeting { range: i32, item: Entity },
    MainMenu { menu_selection: MainMenuSelection },
    SaveGame,
    NextLevel,
    ShowRemoveItem,
    GameOver,
}

} // verus!

verus! {

/// The game: the world and everything in it.
pub struct State {
    pub ecs: World,
}

/// Whether entity `e` stays when the player goes down a level: the player
/// and what the player carries or wears.
pub open spec fn kept_on_level_change(w: World, e: int) -> bool {
    let r = w.entities@[e];
    ||| r.player is Some
    ||| (r.in_backpack is Some && r.in_backpack.unwrap().owner == w.player_entity)
    ||| (r.equipped is Some && r.equipped.unwrap().owner == w.player_entity)
}

/// The live entities among the first `n` that a level change removes, in order.
pub open spec fn removed_on_level_change(w: World, n: int) -> Seq<Entity>
    decreases n,
{
    if n <= 0 {
        seq![]
    } else if w.entities@[n - 1].alive && !kept_on_level_change(w, n - 1) {
        removed_on_level_change(w, n - 1).push((n - 1) as usize)
    } else {
        removed_on_level_change(w, n - 1)
    }
}

proof fn lemma_removed_members(w: World, n: int)
    requires
        0 <= n <= w.entities@.len(),
        n <= usize::MAX,
    ensures
        forall|i: int|
            0 <= i < removed_on_level_change(w, n).len() ==> (#[trigger] removed_on_level_change(
                w,
                n,
            )[i]) < n,
        forall|e: int|
            #![trigger w.entities@[e]]
            0 <= e < n ==> (removed_on_level_change(w, n).contains(e as usize) <==> (
            w.entities@[e].alive && !kept_on_level_change(w, e))),
    decreases n,
{
    if n > 0 {
        lemma_removed_members(w, n - 1);
        let prev = removed_on_level_change(w, n - 1);
        let cur = removed_on_level_change(w, n);
        let pushed = w.entities@[n - 1].alive && !kept_on_level_change(w, n - 1);
        if pushed {
            assert(cur == prev.push((n - 1) as usize));
        } else {
            assert(cur == prev);
        }
        assert forall|e: int| 0 <= e < n implies (cur.contains(e as usize) <==> (
        w.entities@[e].alive && !kept_on_level_change(w, e))) by {
            if cur.contains(e as usize) {
                let i = choose|i: int| 0 <= i < cur.len() && cur[i] == e as usize;
                if i < prev.len() {
                    assert(prev[i] == e as usize);
                    assert(e < n - 1);
                    assert(prev.contains(e as usize));
                    assert(prev.contains(e as usize) <==> (w.entities@[e].alive
                        && !kept_on_level_change(w, e)));
                } else {
                    assert(pushed && e == n - 1);
                }
                assert(w.entities@[e].alive && !kept_on_level_change(w, e));
            }
            if w.entities@[e].alive && !kept_on_level_change(w, e) {
                if e < n - 1 {
                    assert(prev.contains(e as usize));
                    let i = choose|i: int| 0 <= i < prev.len() && prev[i] == e as usize;
                    assert(cur[i] == e as usize);
                } else {
                    assert(cur[prev.len() as int] == e as usize);
                }
                assert(cur.contains(e as usize));
            }
        }
    }
}

/// The entities of slots `n0` to `n1` (excluded) are live non-players, each
/// standing inside one of the rooms after the first.
pub open spec fn spawned_in_rooms(w: World, n0: int, n1: int) -> bool {
    forall|e: int|
        n0 <= e < n1 ==> {
            let r = #[trigger] w.entities@[e];
            &&& r.alive
            &&& r.player is None
            &&& r.position is Some
            &&& exists|k: int|
                1 <= k < w.map.rooms@.len() && inside_room(
                    #[trigger] w.map.rooms@[k],
                    r.position.unwrap().x as int,
                    r.position.unwrap().y as int,
                )
        }
}

/// Hit points after the rest on the stairs: at least half the maximum.
pub open spec fn rested_hp(cs: CombatStats) -> i32 {
    if cs.hp >= half(cs.max_hp as int) {
        cs.hp
    } else {
        half(cs.max_hp as int) as i32
    }
}

/// The player's record on arrival at `at`: moved there, sight to be
/// recomputed, rested; every other component as it was.
pub open spec fn arrived(before: EntityRecord, at: Point) -> EntityRecord {
    EntityRecord {
        position: if before.position is Some {
            Some(Position { x: at.x, y: at.y })
        } else {
            None
        },
        viewshed: match before.viewshed {
            Some(v) => Some(Viewshed { dirty: true, ..v }),
            None => None,
        },
        combat_stats: match before.combat_stats {
            Some(cs) => Some(CombatStats { hp: rested_hp(cs), ..cs }),
            None => None,
        },
        ..before
    }
}

/// The systems pass of a turn: occupancy index, melee, damage, then
/// pickup, use, drop and take-off of items, each on the world the one
/// before it left.
pub open spec fn core_pass(w0: World, w1: World) -> bool {
    exists|a: World, b: World, c: World, d: World, e: World, f: World|
        #![trigger indexing_pass(w0, a), melee_pass(a, b), damage_pass(b, c), pickup_pass(c, d), use_pass(d, e), drop_pass(e, f)]
        indexing_pass(w0, a) && melee_pass(a, b) && damage_pass(b, c) && pickup_pass(c, d)
            && use_pass(d, e) && drop_pass(e, f) && remove_pass(f, w1)
}

/// The world `m` is `w0` with the player's record replaced by `r`.
pub open spec fn with_player_record(w0: World, r: EntityRecord, m: World) -> bool {
    &&& m.entities@ == w0.entities@.update(w0.player_entity as int, r)
    &&& m.map == w0.map
    &&& m.log == w0.log
    &&& m.run_state == w0.run_state
    &&& m.player_entity == w0.player_entity
    &&& m.player_pos == w0.player_pos
}

/// The library's part of a frame's action, taking `w0` to `m` before the
/// run state is committed and the death sweep runs.
pub open spec fn frame_work(w0: World, act: FrameAction, save: Option<SaveData>, m: World) -> bool {
    let pr = w0.entities@[w0.player_entity as int];
    match act {
        FrameAction::RunSystems => core_pass(w0, m),
        FrameAction::ResetWorld => reset(w0, m),
        FrameAction::DescendLevel => descended(w0, m),
        FrameAction::LoadSave => match save {
            Some(d) => loaded(w0, d, m),
            None => m == w0,
        },
        FrameAction::UseItem { item, target } => with_player_record(
            w0,
            EntityRecord { wants_to_use_item: Some(WantsToUseItem { item, target }), ..pr },
            m,
        ),
        FrameAction::DropItem { item } => with_player_record(
            w0,
            EntityRecord { wants_to_drop_item: Some(WantsToDropItem { item }), ..pr },
            m,
        ),
        FrameAction::RemoveItem { item } => with_player_record(
            w0,
            EntityRecord { wants_to_remove_item: Some(WantsToRemoveItem { item }), ..pr },
            m,
        ),
        _ => m == w0,
    }
}

/// What going down one level does to the world.
pub open spec fn descended(w0: World, w1: World) -> bool {
    let p = w0.player_entity as int;
    let n0 = w0.entities@.len() as int;
    &&& fresh_map(w1.map, (w0.map.depth + 1) as i32)
    &&& w1.player_entity == w0.player_entity
    &&& w1.run_state == w0.run_state
    &&& w1.entities@.len() >= n0
    &&& forall|e: int|
        0 <= e < n0 && e != p ==> (#[trigger] w1.entities@[e]) == if w0.entities@[e].alive
            && !kept_on_level_change(w0, e) {
            vacant()
        } else {
            w0.entities@[e]
        }
    &&& w1.entities@[p] == arrived(w0.entities@[p], w1.player_pos)
    &&& spawned_in_rooms(w1, n0, w1.entities@.len() as int)
    &&& w1.player_pos.x == center_x(w1.map.rooms@[0])
    &&& w1.player_pos.y == center_y(w1.map.rooms@[0])
    &&& w1.log.view_texts() == seq!["You descend to the next level, and take a moment to heal."@]
        + w0.log.view_texts()
}

/// What starting over does to the world.
pub open spec fn reset(w0: World, w1: World) -> bool {
    let n0 = w0.entities@.len() as int;
    let p = w1.player_entity as int;
    &&& fresh_map(w1.map, 1)
    &&& forall|e: int| 0 <= e < n0 ==> #[trigger] w1.entities@[e] == vacant()
    &&& n0 <= p && p == w1.entities@.len() - 1
    &&& w1.player_pos.x == center_x(w1.map.rooms@[0])
    &&& w1.player_pos.y == center_y(w1.map.rooms@[0])
    &&& is_new_player(w1.entities@[p], w1.player_pos.x, w1.player_pos.y)
    &&& spawned_in_rooms(w1, n0, p)
    &&& w1.log.view_texts() == seq!["Welcome to my game"@]
    &&& w1.run_state == w0.run_state
}

proof fn lemma_spawns_stay_in_rooms(before: Seq<EntityRecord>, w: World, n0: int, r: int)
    requires
        0 <= n0 <= before.len() <= w.entities@.len(),
        1 <= r < w.map.rooms@.len(),
        forall|e: int| n0 <= e < before.len() ==> #[trigger] w.entities@[e] == before[e],
        forall|e: int|
            n0 <= e < before.len() ==> {
                let q = #[trigger] before[e];
                &&& q.alive
                &&& q.player is None
                &&& q.position is Some
                &&& exists|k: int|
                    1 <= k < w.map.rooms@.len() && inside_room(
                        #[trigger] w.map.rooms@[k],
                        q.position.unwrap().x as int,
                        q.position.unwrap().y as int,
                    )
            },
        forall|e: int|
            before.len() <= e < w.entities@.len() ==> {
                let q = #[trigger] w.entities@[e];
                &&& q.alive
                &&& q.player is None
                &&& q.position is Some
                &&& inside_room(
                    w.map.rooms@[r],
                    q.position.unwrap().x as int,
                    q.position.unwrap().y as int,
                )
            },
    ensures
        spawned_in_rooms(w, n0, w.entities@.len() as int),
{
    assert forall|e: int| n0 <= e < w.entities@.len() implies {
        let q = #[trigger] w.entities@[e];
        &&& q.alive
        &&& q.player is None
        &&& q.position is Some
        &&& exists|k: int|
            1 <= k < w.map.rooms@.len() && inside_room(
                #[trigger] w.map.rooms@[k],
                q.position.unwrap().x as int,
                q.position.unwrap().y as int,
            )
    } by {
        if e < before.len() {
            assert(w.entities@[e] == before[e]);
        } else {
            let q = w.entities@[e];
            assert(inside_room(w.map.rooms@[r], q.position.unwrap().x as int, q.position.unwrap().y as int));
        }
    }
}

impl State {
    /// The entities that a level change removes: every live entity but the
    /// player and the player's carried and worn items, in store order.
    pub fn entities_to_remove_on_level_change(&self) -> (r: Vec<Entity>)
        ensures
            r@ == removed_on_level_change(self.ecs, self.ecs.entities@.len() as int),
    {
        let mut to_delete: Vec<Entity> = Vec::new();
        let player_entity = self.ecs.player_entity;
        let mut e: usize = 0;
        while e < self.ecs.entities.len()
            invariant
                e <= self.ecs.entities@.len(),
                player_entity == self.ecs.player_entity,
                to_delete@ == removed_on_level_change(self.ecs, e as int),
            decreases self.ecs.entities@.len() - e,
        {
            let r = &self.ecs.entities[e];
            if r.alive {
                let mut should_delete = true;
                if r.player.is_some() {
                    should_delete = false;
                }
                if let Some(bp) = r.in_backpack {
                    if bp.owner == player_entity {
                        should_delete = false;
                    }
                }
                if let Some(eq) = r.equipped {
                    if eq.owner == player_entity {
                        should_delete = false;
                    }
                }
                if should_delete {
                    to_delete.push(e);
                }
            }
            e = e + 1;
        }
        to_delete
    }

    /// Goes down one level: everything but the player and the player's
    /// gear is removed, a new map one level deeper is built and filled, the
    /// player is placed at the centre of its first room with sight to be
    /// recomputed, and healed to at least half of full health.
    pub fn goto_next_level(&mut self)
        requires
            old(self).ecs.wf(),
            old(self).ecs.player_entity < old(self).ecs.entities@.len(),
            old(self).ecs.entities@[old(self).ecs.player_entity as int].player is Some,
            old(self).ecs.entities@.len() < usize::MAX - 30 * MAX_SPAWNS,
            0 <= old(self).ecs.map.depth < MAX_DEPTH,
        ensures
            descended(old(self).ecs, final(self).ecs),
    {
        let ghost w0 = self.ecs;
        let to_delete = self.entities_to_remove_on_level_change();
        proof {
            lemma_removed_members(w0, w0.entities@.len() as int);
        }
        let n0 = self.ecs.entities.len();
        let mut i: usize = 0;
        while i < to_delete.len()
            invariant
                i <= to_delete@.len(),
                to_delete@ == removed_on_level_change(w0, n0 as int),
                n0 == w0.entities@.len(),
                forall|k: int|
                    0 <= k < to_delete@.len() ==> (#[trigger] to_delete@[k]) < n0,
                self.ecs.entities@.len() == n0,
                forall|e: int|
                    0 <= e < n0 ==> #[trigger] self.ecs.entities@[e] == if to_delete@.subrange(
                        0,
                        i as int,
                    ).contains(e as usize) {
                        vacant()
                    } else {
                        w0.entities@[e]
                    },
                self.ecs.map == w0.map,
                self.ecs.log == w0.log,
                self.ecs.player_entity == w0.player_entity,
                self.ecs.run_state == w0.run_state,
            decreases to_delete@.len() - i,
        {
            let target = to_delete[i];
            self.ecs.delete_entity(target);
            proof {
                assert forall|e: int| 0 <= e < n0 implies #[trigger] self.ecs.entities@[e] == if to_delete@.subrange(
                    0,
                    i + 1,
                ).contains(e as usize) {
                    vacant()
                } else {
                    w0.entities@[e]
                } by {
                    let s1 = to_delete@.subrange(0, i + 1);
                    let s0 = to_delete@.subrange(0, i as int);
                    if e == target as int {
                        assert(s1[i as int] == target);
                    } else {
                        if s1.contains(e as usize) {
                            let j = choose|j: int| 0 <= j < s1.len() && s1[j] == e as usize;
                            assert(s0[j] == e as usize);
                        }
                        if s0.contains(e as usize) {
                            let j = choose|j: int| 0 <= j < s0.len() && s0[j] == e as usize;
                            assert(s1[j] == e as usize);
                        }
                    }
                }
            }
            i = i + 1;
        }
        proof {
            assert(to_delete@.subrange(0, i as int) =~= to_delete@);
        }
        let new_depth = self.ecs.map.depth + 1;
        self.ecs.map = GameMap::new_map_rooms_and_corridors(new_depth);
        let ghost w1 = self.ecs;
        let mut rng = rltk::RandomNumberGenerator::new();
        let mut r: usize = 1;
        while r < self.ecs.map.rooms.len()
            invariant
                self.ecs.map == w1.map,
                self.ecs.map.wf(),
                1 <= r <= self.ecs.map.rooms@.len() <= 30,
                rooms_in_bounds(self.ecs.map.rooms@),
                0 < new_depth <= MAX_DEPTH,
                spawned_in_rooms(self.ecs, n0 as int, self.ecs.entities@.len() as int),
                n0 <= self.ecs.entities@.len() <= n0 + (r - 1) * MAX_SPAWNS,
                n0 < usize::MAX - 30 * MAX_SPAWNS,
                self.ecs.entities@.subrange(0, n0 as int) == w1.entities@,
                self.ecs.log == w0.log,
                self.ecs.player_entity == w0.player_entity,
                self.ecs.run_state == w0.run_state,
                w1.entities@.len() == n0,
            decreases self.ecs.map.rooms@.len() - r,
        {
            let room = self.ecs.map.rooms[r];
            let ghost before = self.ecs.entities@;
            spawn_room(&mut self.ecs, &room, new_depth, &mut rng);
            proof {
                assert(self.ecs.entities@.subrange(0, n0 as int) =~= before.subrange(0, n0 as int));
                lemma_spawns_stay_in_rooms(before, self.ecs, n0 as int, r as int);
            }
            r = r + 1;
        }
        let (player_x, player_y) = self.ecs.map.rooms[0].center();
        self.ecs.player_pos = Point::new(player_x, player_y);
        let p = self.ecs.player_entity;
        proof {
            assert(self.ecs.entities@[p as int] == w1.entities@[p as int]);
            assert forall|e: int| 0 <= e < n0 implies #[trigger] self.ecs.entities@[e] == w1.entities@[e] by {
                assert(self.ecs.entities@.subrange(0, n0 as int)[e] == w1.entities@[e]);
            }
        }
        let ghost w2 = self.ecs;
        if self.ecs.entities[p].position.is_some() {
            self.ecs.entities[p].position = Some(Position { x: player_x, y: player_y });
        }
        if let Some(vs) = &mut self.ecs.entities[p].viewshed {
            vs.dirty = true;
        }
        let mut note = String::new();
        note.append("You descend to the next level, and take a moment to heal.");
        self.ecs.log.push_front(note);
        if let Some(stats) = self.ecs.entities[p].combat_stats {
            let half = stats.max_hp / 2;
            let hp = if stats.hp >= half { stats.hp } else { half };
            self.ecs.entities[p].combat_stats = Some(CombatStats { hp, ..stats });
        }
        proof {
            assert forall|e: int| 0 <= e < n0 && e != p implies #[trigger] self.ecs.entities@[e] == w2.entities@[e] by {}
            assert(fresh_map(self.ecs.map, (w0.map.depth + 1) as i32));
            assert(self.ecs.entities@[p as int] == arrived(w0.entities@[p as int], self.ecs.player_pos));
            assert forall|e: int| n0 <= e < self.ecs.entities@.len() implies #[trigger] self.ecs.entities@[e] == w2.entities@[e] by {}
            assert(spawned_in_rooms(self.ecs, n0 as int, self.ecs.entities@.len() as int));
        }
    }

    /// Starts over: every entity is removed, a first-level map is built and
    /// filled, a new player stands at the centre of its first room, and the
    /// log holds the welcome alone.
    pub fn game_over_cleanup(&mut self)
        requires
            old(self).ecs.entities@.len() < usize::MAX - 30 * MAX_SPAWNS - 1,
        ensures
            reset(old(self).ecs, final(self).ecs),
    {
        let n0 = self.ecs.entities.len();
        let mut e: usize = 0;
        while e < n0
            invariant
                e <= n0,
                self.ecs.entities@.len() == n0,
                n0 == old(self).ecs.entities@.len(),
                forall|k: int| 0 <= k < e ==> #[trigger] self.ecs.entities@[k] == vacant(),
                self.ecs.run_state == old(self).ecs.run_state,
            decreases n0 - e,
        {
            self.ecs.delete_entity(e);
            e = e + 1;
        }
        self.ecs.map = GameMap::new_map_rooms_and_corridors(1);
        let ghost w1 = self.ecs;
        let mut rng = rltk::RandomNumberGenerator::new();
        let mut r: usize = 1;
        while r < self.ecs.map.rooms.len()
            invariant
                self.ecs.map == w1.map,
                self.ecs.map.wf(),
                1 <= r <= self.ecs.map.rooms@.len() <= 30,
                rooms_in_bounds(self.ecs.map.rooms@),
                n0 <= self.ecs.entities@.len() <= n0 + (r - 1) * MAX_SPAWNS,
                n0 < usize::MAX - 30 * MAX_SPAWNS - 1,
                self.ecs.entities@.subrange(0, n0 as int) == w1.entities@,
                w1.entities@.len() == n0,
                spawned_in_rooms(self.ecs, n0 as int, self.ecs.entities@.len() as int),
                self.ecs.run_state == old(self).ecs.run_state,
            decreases self.ecs.map.rooms@.len() - r,
        {
            let room = self.ecs.map.rooms[r];
            let ghost before = self.ecs.entities@;
            spawn_room(&mut self.ecs, &room, 1, &mut rng);
            proof {
                assert(self.ecs.entities@.subrange(0, n0 as int) =~= before.subrange(0, n0 as int));
                lemma_spawns_stay_in_rooms(before, self.ecs, n0 as int, r as int);
            }
            r = r + 1;
        }
        let (player_x, player_y) = self.ecs.map.rooms[0].center();
        let ghost before = self.ecs.entities@;
        let player_entity = player(&mut self.ecs, player_x, player_y);
        self.ecs.player_entity = player_entity;
        self.ecs.player_pos = Point::new(player_x, player_y);
        let mut welcome = String::new();
        welcome.append("Welcome to my game");
        let mut entries: Vec<String> = Vec::new();
        entries.push(welcome);
        self.ecs.log = GameLog { entries };
        proof {
            assert(self.ecs.log.view_texts() =~= seq!["Welcome to my game"@]);
            assert forall|k: int| 0 <= k < n0 implies #[trigger] self.ecs.entities@[k] == vacant() by {
                assert(self.ecs.entities@.drop_last()[k] == before[k]);
                assert(before.subrange(0, n0 as int)[k] == before[k]);
            }
            assert forall|k: int| n0 <= k < player_entity implies #[trigger] self.ecs.entities@[k] == before[k] by {
                assert(self.ecs.entities@.drop_last()[k] == before[k]);
            }
        }
    }

    /// Runs the systems that act on intents, in order: occupancy index,
    /// melee, damage, then pickup, use, drop and take-off of items.
    pub fn run_core_systems(&mut self)
        requires
            old(self).ecs.wf(),
        ensures
            core_pass(old(self).ecs, final(self).ecs),
    {
        let ghost w0 = self.ecs;
        let mut indexing = MapIndexingSystem {};
        indexing.run(&mut self.ecs);
        let ghost a = self.ecs;
        let mut melee = MeleeCombatSystem {};
        melee.run(&mut self.ecs);
        let ghost b = self.ecs;
        let mut damage = DamageSystem;
        damage.run(&mut self.ecs);
        let ghost c = self.ecs;
        let mut pickup = ItemCollectionSystem {};
        pickup.run(&mut self.ecs);
        let ghost d = self.ecs;
        let mut using = ItemUseSystem {};
        using.run(&mut self.ecs);
        let ghost e = self.ecs;
        let mut dropping = ItemDropSystem {};
        dropping.run(&mut self.ecs);
        let ghost f = self.ecs;
        let mut removing = ItemRemoveSystem {};
        removing.run(&mut self.ecs);
        proof {
            assert(indexing_pass(w0, a) && melee_pass(a, b) && damage_pass(b, c) && pickup_pass(c, d)
                && use_pass(d, e) && drop_pass(e, f) && remove_pass(f, self.ecs));
        }
    }

    /// One frame: the run state advances by its table, the library's part
    /// of the transition is carried out (systems, intents, level change,
    /// reset, loading the given save), and the death sweep ends the frame.
    /// Returns the transition's action, whose outside part (writing the
    /// save, quitting) belongs to the caller.
    pub fn tick(&mut self, ev: FrameEvent, save: Option<SaveData>) -> (action: FrameAction)
        requires
            old(self).ecs.wf(),
            old(self).ecs.entities@.len() < usize::MAX - 1000,
            old(self).ecs.player_entity < old(self).ecs.entities@.len(),
            old(self).ecs.entities@[old(self).ecs.player_entity as int].player is Some,
            0 <= old(self).ecs.map.depth < MAX_DEPTH,
        ensures
            action == transition(old(self).ecs.run_state, ev).1,
            exists|m: World|
                #[trigger] frame_work(old(self).ecs, action, save, m) && death_sweep(
                    World { run_state: transition(old(self).ecs.run_state, ev).0, ..m },
                    final(self).ecs,
                ),
    {
        let ghost w0 = self.ecs;
        let ghost saved_data = save;
        let (next, action) = next_run_state(self.ecs.run_state, ev);
        let p = self.ecs.player_entity;
        match action {
            FrameAction::RunSystems => {
                self.run_core_systems();
            },
            FrameAction::ResetWorld => {
                self.game_over_cleanup();
            },
            FrameAction::DescendLevel => {
                self.goto_next_level();
            },
            FrameAction::LoadSave => {
                if let Some(data) = save {
                    load_game(&mut self.ecs, data);
                }
            },
            FrameAction::UseItem { item, target } => {
                self.ecs.entities[p].wants_to_use_item = Some(WantsToUseItem { item, target });
            },
            FrameAction::DropItem { item } => {
                self.ecs.entities[p].wants_to_drop_item = Some(WantsToDropItem { item });
            },
            FrameAction::RemoveItem { item } => {
                self.ecs.entities[p].wants_to_remove_item = Some(WantsToRemoveItem { item });
            },
            _ => {},
        }
        let ghost m = self.ecs;
        proof {
            assert(frame_work(w0, action, saved_data, m));
        }
        self.ecs.run_state = next;
        proof {
            assert(self.ecs == World { run_state: next, ..m });
        }
        delete_the_dead(&mut self.ecs);
        action
    }
}

/// After the systems pass of a turn no one-turn intent is left: melee,
/// pickup, use, drop and take-off intents are all cleared.
pub proof fn law_core_pass_clears_intents(w0: World, w1: World)
    requires
        core_pass(w0, w1),
    ensures
        w1.entities@.len() == w0.entities@.len(),
        forall|k: int|
            0 <= k < w1.entities@.len() ==> {
                let r = #[trigger] w1.entities@[k];
                &&& r.wants_to_melee is None
                &&& r.wants_to_pickup_item is None
                &&& r.wants_to_use_item is None
                &&& r.wants_to_drop_item is None
                &&& r.wants_to_remove_item is None
            },
{
    let (a, b, c, d, e, f) = choose|a: World, b: World, c: World, d: World, e: World, f: World|
        #![trigger indexing_pass(w0, a), melee_pass(a, b), damage_pass(b, c), pickup_pass(c, d), use_pass(d, e), drop_pass(e, f)]
        indexing_pass(w0, a) && melee_pass(a, b) && damage_pass(b, c) && pickup_pass(c, d)
            && use_pass(d, e) && drop_pass(e, f) && remove_pass(f, w1);
    assert forall|k: int| 0 <= k < d.entities@.len() implies (#[trigger] d.entities@[k]).wants_to_melee
        is None && d.entities@[k].wants_to_pickup_item is None by {
        assert(b.entities@[k] == after_melee(a.entities@, k));
        assert(c.entities@[k] == after_damage(b.entities@, k));
        assert(d.entities@[k] == after_pickup(c.entities@, k));
    }
    assert(no_melee_or_pickup(d.entities@));
    law_item_passes_leave_no_intents(d, e, f, w1);
}

/// When no player has fallen once a frame's work is done, the frame ends in
/// the state that the transition table gives.
pub proof fn law_frame_follows_table(
    w0: World,
    ev: FrameEvent,
    save: Option<SaveData>,
    m: World,
    w1: World,
)
    requires
        frame_work(w0, transition(w0.run_state, ev).1, save, m),
        death_sweep(World { run_state: transition(w0.run_state, ev).0, ..m }, w1),
        !any_player_falls(m.entities@, m.entities@.len() as int),
    ensures
        w1.run_state == transition(w0.run_state, ev).0,
{
}

/// A player whose hp has fallen below one by the end of a frame's work
/// (the systems of a turn, say) is kept, and the frame ends in GameOver.
pub proof fn law_frame_ends_game_when_player_falls(
    w0: World,
    ev: FrameEvent,
    save: Option<SaveData>,
    m: World,
    w1: World,
    p: int,
)
    requires
        frame_work(w0, transition(w0.run_state, ev).1, save, m),
        death_sweep(World { run_state: transition(w0.run_state, ev).0, ..m }, w1),
        m.live(p),
        m.entities@[p].player is Some,
        m.entities@[p].combat_stats is Some,
        m.entities@[p].combat_stats.unwrap().hp < 1,
    ensures
        w1.run_state == RunState::GameOver,
        w1.entities@[p] == m.entities@[p],
{
    law_fallen_player_is_kept(World { run_state: transition(w0.run_state, ev).0, ..m }, w1, p);
}

} // verus!
