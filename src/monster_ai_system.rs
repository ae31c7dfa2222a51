use vstd::prelude::*;
use crate::components::{Entity, Position, WantsToMelee};
use crate::ecs::{EntityRecord, World};
use crate::map::{col_of, idx_of, on_grid, row_of, Point, MAP_COUNT};
use crate::state::RunState;

verus! {

/// Whether a monster at `pos` is next to the player at `p`: within one and a
/// half tiles, which takes in the diagonals.
pub open spec fn adjacent(pos: Position, p: Point) -> bool {
    let (dx, dy) = (pos.x - p.x, pos.y - p.y);
    dx * dx + dy * dy <= 2
}

/// What one monster does on the monsters' turn, given the next tile of its
/// path to the player (when the caller found one): attack when the player
/// is in sight and adjacent, step along the path when the player is in sight
/// but further away, and nothing otherwise.
pub open spec fn monster_acted(w0: World, m: int, step: Option<i32>, w1: World) -> bool {
    let r = w0.entities@[m];
    let pos = r.position.unwrap();
    let sees = r.viewshed.unwrap().visible_tiles@.contains(w0.player_pos);
    &&& w1.entities@.len() == w0.entities@.len()
    &&& w1.log == w0.log
    &&& w1.run_state == w0.run_state
    &&& w1.player_entity == w0.player_entity
    &&& w1.player_pos == w0.player_pos
    &&& if w0.run_state != RunState::MonsterTurn || !sees {
        w1.entities@ == w0.entities@ && w1.map == w0.map
    } else if adjacent(pos, w0.player_pos) {
        &&& w1.entities@ == w0.entities@.update(
            m,
            EntityRecord {
                wants_to_melee: Some(WantsToMelee { target: w0.player_entity }),
                ..r
            },
        )
        &&& w1.map == w0.map
    } else if step is Some && 0 <= step.unwrap() < MAP_COUNT && on_grid(pos.x as int, pos.y as int) {
        let s = step.unwrap() as int;
        &&& w1.entities@[m].position == Some(
            Position { x: col_of(s) as i32, y: row_of(s) as i32 },
        )
        &&& w1.entities@[m].viewshed.unwrap().dirty
        &&& w1.entities@[m].viewshed.unwrap().range == r.viewshed.unwrap().range
        &&& w1.entities@[m].viewshed.unwrap().visible_tiles@ == r.viewshed.unwrap().visible_tiles@
        &&& w1.entities@[m] == EntityRecord {
            position: w1.entities@[m].position,
            viewshed: w1.entities@[m].viewshed,
            ..r
        }
        &&& forall|e: int|
            0 <= e < w0.entities@.len() && e != m ==> #[trigger] w1.entities@[e] == w0.entities@[e]
        &&& w1.map.blocked@ == w0.map.blocked@.update(idx_of(pos.x as int, pos.y as int), false).update(
            s,
            true,
        )
        &&& w1.map.tiles@ == w0.map.tiles@
        &&& w1.map.tile_content@ == w0.map.tile_content@
        &&& w1.map.visible_tiles@ == w0.map.visible_tiles@
        &&& w1.map.revealed_tiles@ == w0.map.revealed_tiles@
        &&& w1.map.bloodstains@ == w0.map.bloodstains@
        &&& w1.map.depth == w0.map.depth
        &&& w1.map.width == w0.map.width
        &&& w1.map.height == w0.map.height
        &&& w1.map.rooms@ == w0.map.rooms@
    } else {
        w1.entities@ == w0.entities@ && w1.map == w0.map
    }
}

/// Whether a record is a monster that gets turns: live, named, with a
/// position and a field of view.
pub open spec fn acts_as_monster(r: EntityRecord) -> bool {
    r.alive && r.monster is Some && r.name is Some && r.position is Some && r.viewshed is Some
}

/// Whether monster `m` takes a turn now: it acts as a monster and it is
/// the monsters' turn.
pub fn takes_turn(ecs: &World, m: Entity) -> (r: bool)
    ensures
        r == (ecs.run_state == RunState::MonsterTurn && m < ecs.entities@.len() && acts_as_monster(
            ecs.entities@[m as int],
        )),
{
    if ecs.run_state != RunState::MonsterTurn || m >= ecs.entities.len() {
        return false;
    }
    let r = &ecs.entities[m];
    r.alive && r.monster.is_some() && r.name.is_some() && r.position.is_some() && r.viewshed.is_some()
}

/// Decides and carries out the turn of monster `m`.
pub fn monster_act(ecs: &mut World, m: Entity, step: Option<i32>)
    requires
        old(ecs).wf(),
        m < old(ecs).entities@.len(),
        old(ecs).entities@[m as int].position is Some,
        old(ecs).entities@[m as int].viewshed is Some,
    ensures
        final(ecs).wf(),
        monster_acted(*old(ecs), m as int, step, *final(ecs)),
{
    if ecs.run_state != RunState::MonsterTurn {
        return;
    }
    let target = ecs.player_pos;
    let pos = ecs.entities[m].position.unwrap();
    let mut sees = false;
    let ghost tiles = ecs.entities@[m as int].viewshed.unwrap().visible_tiles@;
    if let Some(vs) = &ecs.entities[m].viewshed {
        let mut k: usize = 0;
        while k < vs.visible_tiles.len()
            invariant
                k <= vs.visible_tiles@.len(),
                vs.visible_tiles@ == tiles,
                sees == exists|j: int| 0 <= j < k && tiles[j] == target,
            decreases vs.visible_tiles@.len() - k,
        {
            if vs.visible_tiles[k] == target {
                sees = true;
            }
            k = k + 1;
        }
    }
    proof {
        if tiles.contains(target) {
            let j = choose|j: int| 0 <= j < tiles.len() && tiles[j] == target;
        }
    }
    if !sees {
        return;
    }
    let dx = pos.x as i64 - target.x as i64;
    let dy = pos.y as i64 - target.y as i64;
    if dx >= -1 && dx <= 1 && dy >= -1 && dy <= 1 {
        proof {
            assert(dx * dx + dy * dy <= 2) by (nonlinear_arith)
                requires
                    -1 <= dx <= 1,
                    -1 <= dy <= 1,
            ;
        }
        let player_entity = ecs.player_entity;
        ecs.entities[m].wants_to_melee = Some(WantsToMelee { target: player_entity });
        return;
    }
    proof {
        assert(!adjacent(pos, target)) by (nonlinear_arith)
            requires
                dx == pos.x - target.x,
                dy == pos.y - target.y,
                dx < -1 || dx > 1 || dy < -1 || dy > 1,
        ;
    }
    if let Some(s) = step {
        if 0 <= s && s < MAP_COUNT as i32 && 0 <= pos.x && pos.x < 80 && 0 <= pos.y && pos.y < 43 {
            let from = ecs.map.xy_idx(pos.x, pos.y);
            ecs.map.blocked.set(from, false);
            ecs.map.blocked.set(s as usize, true);
            proof {
                crate::map::lemma_idx_join(s as int);
            }
            ecs.entities[m].position = Some(Position { x: s % 80, y: s / 80 });
            if let Some(vs) = &mut ecs.entities[m].viewshed {
                vs.dirty = true;
            }
        }
    }
}

} // verus!
