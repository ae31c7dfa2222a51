use vstd::prelude::*;
use vstd::string::StringExecFns;
use crate::components::{Entity, Position, WantsToMelee, WantsToPickupItem};
use crate::ecs::{EntityRecord, World};
use crate::map::{idx_of, on_grid, Point};

verus! {

/// Whether entity `e` stands in the way at `(x, y)` and can be fought.
pub open spec fn blocker_at(r: EntityRecord, x: int, y: int) -> bool {
    &&& r.alive
    &&& r.blocks_tile is Some
    &&& r.combat_stats is Some
    &&& r.position is Some
    &&& r.position.unwrap().x == x
    &&& r.position.unwrap().y == y
}

/// The first of the first `n` entities, other than `mover`, that blocks `(x, y)` and can be fought.
pub open spec fn first_blocker(rs: Seq<EntityRecord>, mover: int, x: int, y: int, n: int) -> Option<int>
    decreases n,
{
    if n <= 0 {
        None
    } else {
        match first_blocker(rs, mover, x, y, n - 1) {
            Some(t) => Some(t),
            None => if n - 1 != mover && blocker_at(rs[n - 1], x, y) {
                Some(n - 1)
            } else {
                None
            },
        }
    }
}

/// What a move of the player by `(dx, dy)` does: bump-to-attack when a
/// fighter blocks the destination, a step when the tile is open, nothing
/// otherwise.
pub open spec fn moved(w0: World, dx: int, dy: int, w1: World) -> bool {
    let p = w0.player_entity as int;
    let pos = w0.entities@[p].position.unwrap();
    let (x, y) = (pos.x + dx, pos.y + dy);
    &&& w1.entities@.len() == w0.entities@.len()
    &&& w1.map == w0.map
    &&& w1.log == w0.log
    &&& w1.run_state == w0.run_state
    &&& w1.player_entity == w0.player_entity
    &&& match first_blocker(w0.entities@, p, x, y, w0.entities@.len() as int) {
        Some(t) => {
            &&& w1.entities@ == w0.entities@.update(
                p,
                EntityRecord {
                    wants_to_melee: Some(WantsToMelee { target: t as usize }),
                    ..w0.entities@[p]
                },
            )
            &&& w1.player_pos == w0.player_pos
        },
        None => if on_grid(x, y) && !w0.map.blocked@[idx_of(x, y)] {
            &&& w1.entities@[p].position == Some(Position { x: x as i32, y: y as i32 })
            &&& w1.entities@[p].viewshed is Some == w0.entities@[p].viewshed is Some
            &&& (w0.entities@[p].viewshed is Some ==> w1.entities@[p].viewshed.unwrap().dirty
                && w1.entities@[p].viewshed.unwrap().range == w0.entities@[p].viewshed.unwrap().range
                && w1.entities@[p].viewshed.unwrap().visible_tiles@
                == w0.entities@[p].viewshed.unwrap().visible_tiles@)
            &&& w1.entities@[p] == EntityRecord {
                position: w1.entities@[p].position,
                viewshed: w1.entities@[p].viewshed,
                ..w0.entities@[p]
            }
            &&& forall|e: int|
                0 <= e < w0.entities@.len() && e != p ==> #[trigger] w1.entities@[e]
                    == w0.entities@[e]
            &&& w1.player_pos == Point { x: x as i32, y: y as i32 }
        } else {
            &&& w1.entities@ == w0.entities@
            &&& w1.player_pos == w0.player_pos
        },
    }
}

/// Moves the player by `(delta_x, delta_y)`, or attacks what stands there.
pub fn try_move_player(delta_x: i32, delta_y: i32, ecs: &mut World)
    requires
        old(ecs).wf(),
        old(ecs).player_entity < old(ecs).entities@.len(),
        old(ecs).entities@[old(ecs).player_entity as int].position is Some,
        -1 <= delta_x <= 1,
        -1 <= delta_y <= 1,
    ensures
        moved(*old(ecs), delta_x as int, delta_y as int, *final(ecs)),
{
    let p = ecs.player_entity;
    let pos = ecs.entities[p].position.unwrap();
    let x = pos.x as i64 + delta_x as i64;
    let y = pos.y as i64 + delta_y as i64;
    let n = ecs.entities.len();
    let mut target: Option<Entity> = None;
    let mut e: usize = 0;
    while e < n
        invariant
            e <= n,
            n == ecs.entities@.len(),
            p < n,
            target == match first_blocker(ecs.entities@, p as int, x as int, y as int, e as int) {
                Some(t) => Some(t as usize),
                None => None::<usize>,
            },
            forall|t: int|
                first_blocker(ecs.entities@, p as int, x as int, y as int, e as int) == Some(t) ==> 0 <= t
                    < e,
        decreases n - e,
    {
        if target.is_none() && e != p {
            let r = &ecs.entities[e];
            if r.alive && r.blocks_tile.is_some() && r.combat_stats.is_some() {
                if let Some(q) = r.position {
                    if q.x as i64 == x && q.y as i64 == y {
                        target = Some(e);
                    }
                }
            }
        }
        e = e + 1;
    }
    if let Some(t) = target {
        ecs.entities[p].wants_to_melee = Some(WantsToMelee { target: t });
        return;
    }
    if 0 <= x && x < ecs.map.width as i64 && 0 <= y && y < ecs.map.height as i64 {
        let idx = ecs.map.xy_idx(x as i32, y as i32);
        if !ecs.map.blocked[idx] {
            ecs.entities[p].position = Some(Position { x: x as i32, y: y as i32 });
            if let Some(vs) = &mut ecs.entities[p].viewshed {
                vs.dirty = true;
            }
            ecs.player_pos = Point { x: x as i32, y: y as i32 };
        }
    }
}

/// The first live item of the first `n` entities lying at `(x, y)`.
pub open spec fn first_item_at(rs: Seq<EntityRecord>, x: int, y: int, n: int) -> Option<int>
    decreases n,
{
    if n <= 0 {
        None
    } else {
        match first_item_at(rs, x, y, n - 1) {
            Some(t) => Some(t),
            None => if rs[n - 1].alive && rs[n - 1].item is Some && rs[n - 1].position == Some(
                Position { x: x as i32, y: y as i32 },
            ) {
                Some(n - 1)
            } else {
                None
            },
        }
    }
}

/// The player asks to pick up what lies on its tile: the first such item
/// gets a pickup intent on the player's record. With nothing there, the
/// log says so. Returns whether an item was found.
pub fn get_item(ecs: &mut World) -> (found: bool)
    requires
        old(ecs).player_entity < old(ecs).entities@.len(),
    ensures
        ({
            let p = old(ecs).player_entity as int;
            let pos = old(ecs).player_pos;
            match first_item_at(old(ecs).entities@, pos.x as int, pos.y as int, old(ecs).entities@.len() as int) {
                Some(i) => {
                    &&& found
                    &&& final(ecs).entities@ == old(ecs).entities@.update(
                        p,
                        EntityRecord {
                            wants_to_pickup_item: Some(
                                WantsToPickupItem { collected_by: p as usize, item: i as usize },
                            ),
                            ..old(ecs).entities@[p]
                        },
                    )
                    &&& final(ecs).log == old(ecs).log
                },
                None => {
                    &&& !found
                    &&& final(ecs).entities@ == old(ecs).entities@
                    &&& final(ecs).log.view_texts() == seq!["There is nothing here to pick up."@]
                        + old(ecs).log.view_texts()
                },
            }
        }),
        final(ecs).map == old(ecs).map,
        final(ecs).run_state == old(ecs).run_state,
        final(ecs).player_entity == old(ecs).player_entity,
        final(ecs).player_pos == old(ecs).player_pos,
{
    let pos = ecs.player_pos;
    let n = ecs.entities.len();
    let mut found: Option<Entity> = None;
    let mut e: usize = 0;
    while e < n
        invariant
            e <= n,
            n == ecs.entities@.len(),
            found == match first_item_at(ecs.entities@, pos.x as int, pos.y as int, e as int) {
                Some(t) => Some(t as usize),
                None => None::<usize>,
            },
            forall|t: int|
                first_item_at(ecs.entities@, pos.x as int, pos.y as int, e as int) == Some(t) ==> 0
                    <= t < e,
        decreases n - e,
    {
        if found.is_none() {
            let r = &ecs.entities[e];
            if r.alive && r.item.is_some() && r.position == Some(Position { x: pos.x, y: pos.y }) {
                found = Some(e);
            }
        }
        e = e + 1;
    }
    let p = ecs.player_entity;
    match found {
        Some(item) => {
            ecs.entities[p].wants_to_pickup_item = Some(WantsToPickupItem { collected_by: p, item });
            true
        },
        None => {
            let mut msg = String::new();
            msg.append("There is nothing here to pick up.");
            ecs.log.push_front(msg);
            false
        },
    }
}

/// Moving onto a tile where a fighter blocks the way never moves the mover:
/// it only sets the intent to attack that fighter.
pub proof fn law_bump_attacks_without_moving(w0: World, dx: int, dy: int, w1: World)
    requires
        moved(w0, dx, dy, w1),
        w0.player_entity < w0.entities@.len(),
        w0.entities@[w0.player_entity as int].position is Some,
        first_blocker(
            w0.entities@,
            w0.player_entity as int,
            w0.entities@[w0.player_entity as int].position.unwrap().x + dx,
            w0.entities@[w0.player_entity as int].position.unwrap().y + dy,
            w0.entities@.len() as int,
        ) is Some,
    ensures
        w1.entities@[w0.player_entity as int].position == w0.entities@[w0.player_entity as int].position,
        w1.entities@[w0.player_entity as int].wants_to_melee is Some,
        w1.player_pos == w0.player_pos,
{
}

} // verus!
