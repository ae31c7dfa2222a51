use vstd::prelude::*;
use crate::components::Entity;
use crate::ecs::{EntityRecord, World};
use crate::map::{idx_of, on_grid, TileType, MAP_COUNT};

verus! {

/// Whether entity record `r` is live and stands on tile `i`.
pub open spec fn stands_on(r: EntityRecord, i: int) -> bool {
    &&& r.alive
    &&& r.position is Some
    &&& on_grid(r.position.unwrap().x as int, r.position.unwrap().y as int)
    &&& idx_of(r.position.unwrap().x as int, r.position.unwrap().y as int) == i
}

/// The entities among the first `n` that stand on tile `i`, in store order.
pub open spec fn occupants(rs: Seq<EntityRecord>, i: int, n: int) -> Seq<Entity>
    decreases n,
{
    if n <= 0 {
        seq![]
    } else if stands_on(rs[n - 1], i) {
        occupants(rs, i, n - 1).push((n - 1) as usize)
    } else {
        occupants(rs, i, n - 1)
    }
}

/// Whether one of the first `n` entities blocks tile `i`.
pub open spec fn blocked_by_entity(rs: Seq<EntityRecord>, i: int, n: int) -> bool
    decreases n,
{
    if n <= 0 {
        false
    } else {
        blocked_by_entity(rs, i, n - 1) || (stands_on(rs[n - 1], i) && rs[n - 1].blocks_tile is Some)
    }
}

/// What the indexing pass does to the world.
pub open spec fn indexing_pass(w0: World, w1: World) -> bool {
    &&& w1.wf()
    &&& w1.entities@ == w0.entities@
    &&& w1.map.tiles@ == w0.map.tiles@
    &&& w1.map.rooms@ == w0.map.rooms@
    &&& w1.map.revealed_tiles@ == w0.map.revealed_tiles@
    &&& w1.map.visible_tiles@ == w0.map.visible_tiles@
    &&& w1.map.bloodstains@ == w0.map.bloodstains@
    &&& w1.map.depth == w0.map.depth
    &&& forall|i: int| 0 <= i < MAP_COUNT ==> #[trigger] w1.map.blocked@[i] == (w0.map.tiles@[i] == TileType::Wall || blocked_by_entity( w0.entities@, i, w0.entities@.len() as int, ))
    &&& forall|i: int| 0 <= i < MAP_COUNT ==> (#[trigger] w1.map.tile_content@[i])@ == occupants( w0.entities@, i, w0.entities@.len() as int, )
    &&& w1.log == w0.log
    &&& w1.run_state == w0.run_state
    &&& w1.player_entity == w0.player_entity
    &&& w1.player_pos == w0.player_pos
}

/// Rebuilds the blocking surface and the occupancy index.
pub struct MapIndexingSystem {}

impl MapIndexingSystem {
    /// A tile is blocked when it is a wall or a live blocking entity stands
    /// on it; each tile lists the live entities standing on it.
    pub fn run(&mut self, ecs: &mut World)
        requires
            old(ecs).wf(),
        ensures
            indexing_pass(*old(ecs), *final(ecs)),
    {
        ecs.map.populate_blocked();
        ecs.map.clear_content_index();
        let n = ecs.entities.len();
        let mut e: usize = 0;
        while e < n
            invariant
                e <= n,
                n == ecs.entities@.len(),
                ecs.entities@ == old(ecs).entities@,
                ecs.wf(),
                old(ecs).wf(),
                ecs.map.tiles@ == old(ecs).map.tiles@,
                ecs.map.rooms@ == old(ecs).map.rooms@,
                ecs.map.revealed_tiles@ == old(ecs).map.revealed_tiles@,
                ecs.map.visible_tiles@ == old(ecs).map.visible_tiles@,
                ecs.map.bloodstains@ == old(ecs).map.bloodstains@,
                ecs.map.depth == old(ecs).map.depth,
                forall|i: int|
                    0 <= i < MAP_COUNT ==> #[trigger] ecs.map.blocked@[i] == (old(ecs).map.tiles@[i]
                        == TileType::Wall || blocked_by_entity(ecs.entities@, i, e as int)),
                forall|i: int|
                    0 <= i < MAP_COUNT ==> (#[trigger] ecs.map.tile_content@[i])@ == occupants(
                        ecs.entities@,
                        i,
                        e as int,
                    ),
                ecs.log == old(ecs).log,
                ecs.run_state == old(ecs).run_state,
                ecs.player_entity == old(ecs).player_entity,
                ecs.player_pos == old(ecs).player_pos,
            decreases n - e,
        {
            let ghost rs = ecs.entities@;
            let ghost blocked0 = ecs.map.blocked@;
            let ghost content0 = ecs.map.tile_content@;
            if ecs.entities[e].alive {
                if let Some(pos) = ecs.entities[e].position {
                    if 0 <= pos.x && pos.x < ecs.map.width && 0 <= pos.y && pos.y < ecs.map.height {
                        let idx = ecs.map.xy_idx(pos.x, pos.y);
                        if ecs.entities[e].blocks_tile.is_some() {
                            ecs.map.blocked.set(idx, true);
                        }
                        ecs.map.tile_content[idx].push(e);
                    }
                }
            }
            proof {
                assert forall|i: int| 0 <= i < MAP_COUNT implies (#[trigger] ecs.map.tile_content@[i])@
                    == occupants(rs, i, e + 1) by {
                    assert(content0[i]@ == occupants(rs, i, e as int));
                }
                assert forall|i: int| 0 <= i < MAP_COUNT implies #[trigger] ecs.map.blocked@[i] == (
                old(ecs).map.tiles@[i] == TileType::Wall || blocked_by_entity(rs, i, e + 1)) by {
                    assert(blocked0[i] == (old(ecs).map.tiles@[i] == TileType::Wall
                        || blocked_by_entity(rs, i, e as int)));
                }
            }
            e = e + 1;
        }
    }
}

} // verus!
