use vstd::prelude::*;
use crate::components::Entity;
use crate::ecs::{EntityRecord, World};
use crate::map::{idx_of, on_grid, Point, MAP_COUNT};

verus! {

/// The points of `s` that lie on the grid, in order.
pub open spec fn on_grid_points(s: Seq<Point>) -> Seq<Point>
    decreases s.len(),
{
    if s.len() == 0 {
        seq![]
    } else if on_grid(s.last().x as int, s.last().y as int) {
        on_grid_points(s.drop_last()).push(s.last())
    } else {
        on_grid_points(s.drop_last())
    }
}

/// Whether tile `i` is one of the points of `s`.
pub open spec fn covers(s: Seq<Point>, i: int) -> bool {
    exists|k: int| 0 <= k < s.len() && on_grid(s[k].x as int, s[k].y as int) && idx_of(
        #[trigger] s[k].x as int,
        s[k].y as int,
    ) == i
}

/// Whether a live, placed entity has a field of view waiting to be recomputed.
pub open spec fn view_stale(r: EntityRecord) -> bool {
    r.alive && r.position is Some && r.viewshed is Some && r.viewshed.unwrap().dirty
}

/// Whether entity `e` needs its field of view recomputed this turn.
pub fn needs_view(ecs: &World, e: Entity) -> (r: bool)
    ensures
        r == (e < ecs.entities@.len() && view_stale(ecs.entities@[e as int])),
{
    if e >= ecs.entities.len() {
        return false;
    }
    let r = &ecs.entities[e];
    r.alive && r.position.is_some() && match &r.viewshed {
        Some(v) => v.dirty,
        None => false,
    }
}

/// Stores a freshly computed field of view for entity `e`: its viewshed
/// keeps the points that lie on the grid and is no longer dirty. For the
/// player, the map's visible tiles become exactly those points, and each of
/// them is revealed.
pub fn apply_view(ecs: &mut World, e: Entity, seen: Vec<Point>)
    requires
        old(ecs).wf(),
        e < old(ecs).entities@.len(),
        old(ecs).entities@[e as int].viewshed is Some,
    ensures
        final(ecs).wf(),
        final(ecs).entities@.len() == old(ecs).entities@.len(),
        forall|k: int|
            0 <= k < old(ecs).entities@.len() && k != e ==> #[trigger] final(ecs).entities@[k]
                == old(ecs).entities@[k],
        final(ecs).entities@[e as int] == (EntityRecord {
            viewshed: final(ecs).entities@[e as int].viewshed,
            ..old(ecs).entities@[e as int]
        }),
        final(ecs).entities@[e as int].viewshed is Some,
        final(ecs).entities@[e as int].viewshed.unwrap().visible_tiles@ == on_grid_points(seen@),
        !final(ecs).entities@[e as int].viewshed.unwrap().dirty,
        final(ecs).entities@[e as int].viewshed.unwrap().range == old(ecs).entities@[e as int].viewshed.unwrap().range,
        old(ecs).entities@[e as int].player is None ==> final(ecs).map == old(ecs).map,
        old(ecs).entities@[e as int].player is Some ==> {
            &&& final(ecs).map.tiles@ == old(ecs).map.tiles@
            &&& final(ecs).map.blocked@ == old(ecs).map.blocked@
            &&& final(ecs).map.bloodstains@ == old(ecs).map.bloodstains@
            &&& final(ecs).map.rooms@ == old(ecs).map.rooms@
            &&& final(ecs).map.depth == old(ecs).map.depth
            &&& forall|i: int|
                0 <= i < MAP_COUNT ==> #[trigger] final(ecs).map.visible_tiles@[i] == covers(seen@, i)
            &&& forall|i: int|
                0 <= i < MAP_COUNT ==> #[trigger] final(ecs).map.revealed_tiles@[i] == (
                old(ecs).map.revealed_tiles@[i] || covers(seen@, i))
        },
        final(ecs).log == old(ecs).log,
        final(ecs).run_state == old(ecs).run_state,
        final(ecs).player_entity == old(ecs).player_entity,
        final(ecs).player_pos == old(ecs).player_pos,
{
    let mut kept: Vec<Point> = Vec::new();
    let mut i: usize = 0;
    while i < seen.len()
        invariant
            i <= seen@.len(),
            kept@ == on_grid_points(seen@.subrange(0, i as int)),
        decreases seen@.len() - i,
    {
        let p = seen[i];
        proof {
            assert(seen@.subrange(0, i + 1).drop_last() =~= seen@.subrange(0, i as int));
        }
        if 0 <= p.x && p.x < 80 && 0 <= p.y && p.y < 43 {
            kept.push(p);
        }
        i = i + 1;
    }
    proof {
        assert(seen@.subrange(0, seen@.len() as int) =~= seen@);
    }
    let is_player = ecs.entities[e].player.is_some();
    if is_player {
        let mut j: usize = 0;
        while j < MAP_COUNT
            invariant
                ecs.wf(),
                old(ecs).wf(),
                j <= MAP_COUNT,
                ecs.entities@ == old(ecs).entities@,
                ecs.map.tiles@ == old(ecs).map.tiles@,
                ecs.map.blocked@ == old(ecs).map.blocked@,
                ecs.map.bloodstains@ == old(ecs).map.bloodstains@,
                ecs.map.revealed_tiles@ == old(ecs).map.revealed_tiles@,
                ecs.map.rooms@ == old(ecs).map.rooms@,
                ecs.map.depth == old(ecs).map.depth,
                forall|k: int| 0 <= k < j ==> !#[trigger] ecs.map.visible_tiles@[k],
                ecs.log == old(ecs).log,
                ecs.run_state == old(ecs).run_state,
                ecs.player_entity == old(ecs).player_entity,
                ecs.player_pos == old(ecs).player_pos,
            decreases MAP_COUNT - j,
        {
            ecs.map.visible_tiles.set(j, false);
            j = j + 1;
        }
        let mut k: usize = 0;
        while k < seen.len()
            invariant
                ecs.wf(),
                old(ecs).wf(),
                k <= seen@.len(),
                ecs.entities@ == old(ecs).entities@,
                ecs.map.tiles@ == old(ecs).map.tiles@,
                ecs.map.blocked@ == old(ecs).map.blocked@,
                ecs.map.bloodstains@ == old(ecs).map.bloodstains@,
                ecs.map.rooms@ == old(ecs).map.rooms@,
                ecs.map.depth == old(ecs).map.depth,
                forall|i: int|
                    0 <= i < MAP_COUNT ==> #[trigger] ecs.map.visible_tiles@[i] == covers(
                        seen@.subrange(0, k as int),
                        i,
                    ),
                forall|i: int|
                    0 <= i < MAP_COUNT ==> #[trigger] ecs.map.revealed_tiles@[i] == (
                    old(ecs).map.revealed_tiles@[i] || covers(seen@.subrange(0, k as int), i)),
                ecs.log == old(ecs).log,
                ecs.run_state == old(ecs).run_state,
                ecs.player_entity == old(ecs).player_entity,
                ecs.player_pos == old(ecs).player_pos,
            decreases seen@.len() - k,
        {
            let p = seen[k];
            let ghost prefix = seen@.subrange(0, k as int);
            let ghost next = seen@.subrange(0, k + 1);
            let ghost vis0 = ecs.map.visible_tiles@;
            let ghost rev0 = ecs.map.revealed_tiles@;
            if 0 <= p.x && p.x < 80 && 0 <= p.y && p.y < 43 {
                let idx = ecs.map.xy_idx(p.x, p.y);
                ecs.map.visible_tiles.set(idx, true);
                ecs.map.revealed_tiles.set(idx, true);
            }
            proof {
                assert forall|i: int| 0 <= i < MAP_COUNT implies covers(next, i) == (covers(prefix, i)
                    || (on_grid(p.x as int, p.y as int) && idx_of(p.x as int, p.y as int) == i)) by {
                    if covers(next, i) {
                        let q = choose|q: int|
                            0 <= q < next.len() && on_grid(next[q].x as int, next[q].y as int)
                                && idx_of(#[trigger] next[q].x as int, next[q].y as int) == i;
                        if q < k {
                            assert(prefix[q] == next[q]);
                        }
                    }
                    if covers(prefix, i) {
                        let q = choose|q: int|
                            0 <= q < prefix.len() && on_grid(prefix[q].x as int, prefix[q].y as int)
                                && idx_of(#[trigger] prefix[q].x as int, prefix[q].y as int) == i;
                        assert(next[q] == prefix[q]);
                    }
                    if on_grid(p.x as int, p.y as int) && idx_of(p.x as int, p.y as int) == i {
                        assert(next[k as int] == p);
                    }
                }
                assert forall|i: int| 0 <= i < MAP_COUNT implies #[trigger] ecs.map.visible_tiles@[i]
                    == covers(next, i) by {
                    assert(vis0[i] == covers(prefix, i));
                    if on_grid(p.x as int, p.y as int) {
                        crate::map::lemma_idx_split(p.x as int, p.y as int);
                    }
                }
                assert forall|i: int| 0 <= i < MAP_COUNT implies #[trigger] ecs.map.revealed_tiles@[i]
                    == (old(ecs).map.revealed_tiles@[i] || covers(next, i)) by {
                    assert(rev0[i] == (old(ecs).map.revealed_tiles@[i] || covers(prefix, i)));
                    if on_grid(p.x as int, p.y as int) {
                        crate::map::lemma_idx_split(p.x as int, p.y as int);
                    }
                }
            }
            k = k + 1;
        }
        proof {
            assert(seen@.subrange(0, seen@.len() as int) =~= seen@);
        }
    }
    let range = match &ecs.entities[e].viewshed {
        Some(v) => v.range,
        None => 0,
    };
    ecs.entities[e].viewshed = Some(crate::components::Viewshed { visible_tiles: kept, range, dirty: false });
}

} // verus!
