use vstd::prelude::*;
use vstd::string::StringExecFns;
use crate::components::{clamp32, sat_sub, CombatStats};
use crate::ecs::{vacant, EntityRecord, World};
use crate::map::{idx_of, on_grid, GameMap, MAP_COUNT};
use crate::state::RunState;

verus! {

/// Whether entity `e` takes its accumulated damage this pass.
pub open spec fn damaged(rs: Seq<EntityRecord>, e: int) -> bool {
    rs[e].alive && rs[e].suffer_damage is Some && rs[e].combat_stats is Some
}

/// The record of an entity after the damage pass.
pub open spec fn after_damage(rs: Seq<EntityRecord>, e: int) -> EntityRecord {
    EntityRecord {
        combat_stats: if damaged(rs, e) {
            let cs = rs[e].combat_stats.unwrap();
            Some(
                CombatStats {
                    hp: clamp32(cs.hp - rs[e].suffer_damage.unwrap().amount) as i32,
                    ..cs
                },
            )
        } else {
            rs[e].combat_stats
        },
        suffer_damage: None,
        ..rs[e]
    }
}

/// Whether tile `i` holds one of the first `n` entities that take damage.
pub open spec fn bled_on(rs: Seq<EntityRecord>, i: int, n: int) -> bool
    decreases n,
{
    if n <= 0 {
        false
    } else {
        bled_on(rs, i, n - 1) || (damaged(rs, n - 1) && rs[n - 1].position is Some && on_grid(
            rs[n - 1].position.unwrap().x as int,
            rs[n - 1].position.unwrap().y as int,
        ) && idx_of(rs[n - 1].position.unwrap().x as int, rs[n - 1].position.unwrap().y as int)
            == i)
    }
}

/// Two maps that differ at most in their bloodstains.
pub open spec fn same_but_stains(a: GameMap, b: GameMap) -> bool {
    &&& a.tiles@ == b.tiles@
    &&& a.rooms@ == b.rooms@
    &&& a.width == b.width
    &&& a.height == b.height
    &&& a.revealed_tiles@ == b.revealed_tiles@
    &&& a.visible_tiles@ == b.visible_tiles@
    &&& a.blocked@ == b.blocked@
    &&& a.depth == b.depth
    &&& a.tile_content@ == b.tile_content@
    &&& a.bloodstains@.len() == b.bloodstains@.len()
}

/// What the damage pass does to the world.
pub open spec fn damage_pass(w0: World, w1: World) -> bool {
    &&& w1.wf()
    &&& w1.entities@.len() == w0.entities@.len()
    &&& forall|e: int|
        0 <= e < w0.entities@.len() ==> #[trigger] w1.entities@[e] == after_damage(w0.entities@, e)
    &&& same_but_stains(w1.map, w0.map)
    &&& forall|i: int|
        0 <= i < MAP_COUNT ==> #[trigger] w1.map.bloodstains@[i] == (w0.map.bloodstains@[i]
            || bled_on(w0.entities@, i, w0.entities@.len() as int))
    &&& w1.log == w0.log
    &&& w1.run_state == w0.run_state
    &&& w1.player_entity == w0.player_entity
    &&& w1.player_pos == w0.player_pos
}

/// What the death sweep does to the world.
pub open spec fn death_sweep(w0: World, w1: World) -> bool {
    &&& w1.entities@.len() == w0.entities@.len()
    &&& forall|e: int|
        0 <= e < w0.entities@.len() ==> #[trigger] w1.entities@[e] == if dies(w0.entities@, e) {
            vacant()
        } else {
            w0.entities@[e]
        }
    &&& w1.log.view_texts() == death_texts(w0.entities@, w0.entities@.len() as int)
        + w0.log.view_texts()
    &&& w1.run_state == if any_player_falls(w0.entities@, w0.entities@.len() as int) {
        RunState::GameOver
    } else {
        w0.run_state
    }
    &&& w1.map == w0.map
    &&& w1.player_entity == w0.player_entity
    &&& w1.player_pos == w0.player_pos
}

/// Applies accumulated damage.
pub struct DamageSystem;

impl DamageSystem {
    /// Subtracts each live entity's accumulated damage from its hp, stains
    /// the tile it stands on, and clears every accumulator.
    pub fn run(&mut self, ecs: &mut World)
        requires
            old(ecs).wf(),
        ensures
            damage_pass(*old(ecs), *final(ecs)),
    {
        let ghost r0 = ecs.entities@;
        let n = ecs.entities.len();
        let mut e: usize = 0;
        while e < n
            invariant
                n == r0.len(),
                e <= n,
                r0 == old(ecs).entities@,
                ecs.wf(),
                old(ecs).wf(),
                ecs.entities@.len() == n,
                forall|k: int|
                    0 <= k < n ==> #[trigger] ecs.entities@[k] == if k < e {
                        after_damage(r0, k)
                    } else {
                        r0[k]
                    },
                same_but_stains(ecs.map, old(ecs).map),
                forall|i: int|
                    0 <= i < MAP_COUNT ==> #[trigger] ecs.map.bloodstains@[i] == (
                    old(ecs).map.bloodstains@[i] || bled_on(r0, i, e as int)),
                ecs.log == old(ecs).log,
                ecs.run_state == old(ecs).run_state,
                ecs.player_entity == old(ecs).player_entity,
                ecs.player_pos == old(ecs).player_pos,
            decreases n - e,
        {
            let ghost blood_before = ecs.map.bloodstains@;
            proof {
                assert(ecs.entities@[e as int] == r0[e as int]);
            }
            let alive = ecs.entities[e].alive;
            match (ecs.entities[e].suffer_damage, ecs.entities[e].combat_stats) {
                (Some(d), Some(cs)) => {
                    if alive {
                        let hp = sat_sub(cs.hp, d.amount);
                        ecs.entities[e].combat_stats = Some(CombatStats { hp, ..cs });
                        if let Some(pos) = ecs.entities[e].position {
                            if 0 <= pos.x && pos.x < ecs.map.width && 0 <= pos.y && pos.y
                                < ecs.map.height {
                                let idx = ecs.map.xy_idx(pos.x, pos.y);
                                ecs.map.bloodstains.set(idx, true);
                            }
                        }
                    }
                },
                _ => {},
            }
            ecs.entities[e].suffer_damage = None;
            proof {
                assert forall|i: int| 0 <= i < MAP_COUNT implies ecs.map.bloodstains@[i] == (
                old(ecs).map.bloodstains@[i] || bled_on(r0, i, e + 1)) by {
                    assert(bled_on(r0, i, e + 1) == (bled_on(r0, i, e as int) || (damaged(r0, e as int)
                        && r0[e as int].position is Some && on_grid(
                        r0[e as int].position.unwrap().x as int,
                        r0[e as int].position.unwrap().y as int,
                    ) && idx_of(
                        r0[e as int].position.unwrap().x as int,
                        r0[e as int].position.unwrap().y as int,
                    ) == i)));
                    assert(blood_before[i] == (old(ecs).map.bloodstains@[i] || bled_on(r0, i, e as int)));
                }
            }
            e = e + 1;
        }
    }
}

/// Whether the death sweep removes entity `e`: a live non-player whose hp
/// has fallen below one.
pub open spec fn dies(rs: Seq<EntityRecord>, e: int) -> bool {
    rs[e].alive && rs[e].combat_stats is Some && rs[e].combat_stats.unwrap().hp < 1
        && rs[e].player is None
}

/// Whether entity `e` is a player whose hp has fallen below one.
pub open spec fn player_falls(rs: Seq<EntityRecord>, e: int) -> bool {
    rs[e].alive && rs[e].combat_stats is Some && rs[e].combat_stats.unwrap().hp < 1
        && rs[e].player is Some
}

/// Whether one of the first `n` entities is a fallen player.
pub open spec fn any_player_falls(rs: Seq<EntityRecord>, n: int) -> bool
    decreases n,
{
    if n <= 0 {
        false
    } else {
        any_player_falls(rs, n - 1) || player_falls(rs, n - 1)
    }
}

/// The obituaries of the first `n` entities, newest first.
pub open spec fn death_texts(rs: Seq<EntityRecord>, n: int) -> Seq<Seq<char>>
    decreases n,
{
    if n <= 0 {
        seq![]
    } else if dies(rs, n - 1) && rs[n - 1].name is Some {
        seq![rs[n - 1].name.unwrap().name@ + " is dead"@] + death_texts(rs, n - 1)
    } else {
        death_texts(rs, n - 1)
    }
}

/// The death sweep: every live non-player with hp below one is logged (when
/// it has a name) and deleted; a player with hp below one is kept and the
/// game is over.
pub fn delete_the_dead(ecs: &mut World)
    ensures
        death_sweep(*old(ecs), *final(ecs)),
{
    let ghost r0 = ecs.entities@;
    let n = ecs.entities.len();
    let mut e: usize = 0;
    while e < n
        invariant
            n == r0.len(),
            e <= n,
            r0 == old(ecs).entities@,
            ecs.entities@.len() == n,
            forall|k: int|
                0 <= k < n ==> #[trigger] ecs.entities@[k] == if k < e && dies(r0, k) {
                    vacant()
                } else {
                    r0[k]
                },
            ecs.log.view_texts() == death_texts(r0, e as int) + old(ecs).log.view_texts(),
            ecs.run_state == if any_player_falls(r0, e as int) {
                RunState::GameOver
            } else {
                old(ecs).run_state
            },
            ecs.map == old(ecs).map,
            ecs.player_entity == old(ecs).player_entity,
            ecs.player_pos == old(ecs).player_pos,
        decreases n - e,
    {
        proof {
            assert(ecs.entities@[e as int] == r0[e as int]);
        }
        let ghost log_before = ecs.log.view_texts();
        if ecs.entities[e].alive {
            if let Some(stats) = ecs.entities[e].combat_stats {
                if stats.hp < 1 {
                    if ecs.entities[e].player.is_none() {
                        let msg = match &ecs.entities[e].name {
                            Some(victim) => {
                                let mut m = victim.name.clone();
                                m.append(" is dead");
                                Some(m)
                            },
                            None => None,
                        };
                        if let Some(m) = msg {
                            ecs.log.push_front(m);
                        }
                        proof {
                            assert(ecs.log.view_texts() =~= death_texts(r0, e + 1)
                                + old(ecs).log.view_texts());
                        }
                        ecs.delete_entity(e);
                    } else {
                        ecs.run_state = RunState::GameOver;
                    }
                }
            }
        }
        e = e + 1;
    }
}

proof fn lemma_obituary_listed(rs: Seq<EntityRecord>, e: int, n: int)
    requires
        0 <= e < n <= rs.len(),
        dies(rs, e),
        rs[e].name is Some,
    ensures
        death_texts(rs, n).contains(rs[e].name.unwrap().name@ + " is dead"@),
    decreases n,
{
    let t = rs[e].name.unwrap().name@ + " is dead"@;
    if e == n - 1 {
        assert(death_texts(rs, n)[0] == t);
    } else {
        lemma_obituary_listed(rs, e, n - 1);
        let prev = death_texts(rs, n - 1);
        let k = choose|k: int| 0 <= k < prev.len() && #[trigger] prev[k] == t;
        if dies(rs, n - 1) && rs[n - 1].name is Some {
            assert(death_texts(rs, n)[k + 1] == t);
        }
    }
}

proof fn lemma_fallen_player_seen(rs: Seq<EntityRecord>, e: int, n: int)
    requires
        0 <= e < n,
        player_falls(rs, e),
    ensures
        any_player_falls(rs, n),
    decreases n,
{
    if e < n - 1 {
        lemma_fallen_player_seen(rs, e, n - 1);
    }
}

/// A live non-player with one hp that takes one point of damage reaches
/// zero hp in the damage pass; the death sweep that follows logs its death
/// (when it has a name) and removes it from the store.
pub proof fn law_lethal_damage_removes_non_player(w0: World, w1: World, w2: World, e: int)
    requires
        damage_pass(w0, w1),
        death_sweep(w1, w2),
        w0.live(e),
        w0.entities@[e].player is None,
        w0.entities@[e].combat_stats is Some,
        w0.entities@[e].combat_stats.unwrap().hp == 1,
        w0.entities@[e].suffer_damage == Some(crate::components::SufferDamage { amount: 1 }),
    ensures
        w1.entities@[e].combat_stats.unwrap().hp == 0,
        w2.entities@[e] == vacant(),
        w0.entities@[e].name is Some ==> w2.log.view_texts().contains(
            w0.entities@[e].name.unwrap().name@ + " is dead"@,
        ),
{
    assert(w1.entities@[e] == after_damage(w0.entities@, e));
    assert(dies(w1.entities@, e));
    assert(w2.entities@[e] == vacant());
    if w0.entities@[e].name is Some {
        lemma_obituary_listed(w1.entities@, e, w1.entities@.len() as int);
        let t = w0.entities@[e].name.unwrap().name@ + " is dead"@;
        let d = death_texts(w1.entities@, w1.entities@.len() as int);
        let k = choose|k: int| 0 <= k < d.len() && #[trigger] d[k] == t;
        assert(w2.log.view_texts()[k] == t);
    }
}

/// A player whose hp has fallen below one is never removed by the death
/// sweep; the game is over instead.
pub proof fn law_fallen_player_is_kept(w1: World, w2: World, e: int)
    requires
        death_sweep(w1, w2),
        w1.live(e),
        w1.entities@[e].player is Some,
        w1.entities@[e].combat_stats is Some,
        w1.entities@[e].combat_stats.unwrap().hp < 1,
    ensures
        w2.entities@[e] == w1.entities@[e],
        w2.run_state == RunState::GameOver,
{
    lemma_fallen_player_seen(w1.entities@, e, w1.entities@.len() as int);
    assert(w2.entities@[e] == w1.entities@[e]);
}

} // verus!
