use vstd::prelude::*;
use vstd::string::StringExecFns;
use crate::components::{clamp32, sat_add, sat_sub, Entity, SufferDamage};
use crate::ecs::{EntityRecord, World};
use crate::game_log::{append_int, int_text};

verus! {

/// What one equipped item adds to its owner's attack power.
pub open spec fn power_contrib(r: EntityRecord, owner: int) -> int {
    if r.alive && r.equipped is Some && r.equipped.unwrap().owner == owner
        && r.melee_power_bonus is Some {
        r.melee_power_bonus.unwrap().power as int
    } else {
        0
    }
}

/// What one equipped item adds to its owner's defense.
pub open spec fn defense_contrib(r: EntityRecord, owner: int) -> int {
    if r.alive && r.equipped is Some && r.equipped.unwrap().owner == owner && r.defense_bonus is Some {
        r.defense_bonus.unwrap().defense as int
    } else {
        0
    }
}

/// The attack bonus of `owner` from the items among the first `n` slots.
pub open spec fn power_bonus(rs: Seq<EntityRecord>, owner: int, n: int) -> int
    decreases n,
{
    if n <= 0 {
        0
    } else {
        clamp32(power_bonus(rs, owner, n - 1) + power_contrib(rs[n - 1], owner))
    }
}

/// The defense bonus of `owner` from the items among the first `n` slots.
pub open spec fn defense_bonus(rs: Seq<EntityRecord>, owner: int, n: int) -> int
    decreases n,
{
    if n <= 0 {
        0
    } else {
        clamp32(defense_bonus(rs, owner, n - 1) + defense_contrib(rs[n - 1], owner))
    }
}

/// Damage dealt: attack less defense, never below zero.
pub open spec fn damage_of(power: int, offense: int, defense: int, protection: int) -> int {
    let d = clamp32(clamp32(power + offense) - clamp32(defense + protection));
    if d > 0 {
        d
    } else {
        0
    }
}

pub open spec fn attack_target(rs: Seq<EntityRecord>, a: int) -> int {
    rs[a].wants_to_melee.unwrap().target as int
}

/// Whether slot `a` holds an attack that is carried out: a live, named
/// attacker with positive hp aims at a live, named target with positive hp.
pub open spec fn attack_valid(rs: Seq<EntityRecord>, a: int) -> bool {
    &&& 0 <= a < rs.len()
    &&& rs[a].alive
    &&& rs[a].wants_to_melee is Some
    &&& rs[a].name is Some
    &&& rs[a].combat_stats is Some
    &&& rs[a].combat_stats.unwrap().hp > 0
    &&& 0 <= attack_target(rs, a) < rs.len()
    &&& rs[attack_target(rs, a)].alive
    &&& rs[attack_target(rs, a)].name is Some
    &&& rs[attack_target(rs, a)].combat_stats is Some
    &&& rs[attack_target(rs, a)].combat_stats.unwrap().hp > 0
}

pub open spec fn attack_damage(rs: Seq<EntityRecord>, a: int) -> int {
    let t = attack_target(rs, a);
    damage_of(
        rs[a].combat_stats.unwrap().power as int,
        power_bonus(rs, a, rs.len() as int),
        rs[t].combat_stats.unwrap().defense as int,
        defense_bonus(rs, t, rs.len() as int),
    )
}

/// The log line of one attack.
pub open spec fn melee_text(attacker: Seq<char>, target: Seq<char>, damage: int) -> Seq<char> {
    if damage == 0 {
        attacker + " is unable to hurt "@ + target
    } else {
        attacker + " hits "@ + target + ", for "@ + int_text(damage) + " hp."@
    }
}

pub open spec fn attack_text(rs: Seq<EntityRecord>, a: int) -> Seq<char> {
    melee_text(
        rs[a].name.unwrap().name@,
        rs[attack_target(rs, a)].name.unwrap().name@,
        attack_damage(rs, a),
    )
}

/// The lines that the attacks of the first `n` slots add, newest first.
pub open spec fn melee_texts(rs: Seq<EntityRecord>, n: int) -> Seq<Seq<char>>
    decreases n,
{
    if n <= 0 {
        seq![]
    } else if attack_valid(rs, n - 1) {
        seq![attack_text(rs, n - 1)] + melee_texts(rs, n - 1)
    } else {
        melee_texts(rs, n - 1)
    }
}

/// Whether the attack of slot `a` lands a positive hit on `t`.
pub open spec fn hits(rs: Seq<EntityRecord>, a: int, t: int) -> bool {
    attack_valid(rs, a) && attack_target(rs, a) == t && attack_damage(rs, a) > 0
}

/// The damage accumulated on `t` after the attacks of the first `n` slots.
pub open spec fn suffer_after(rs: Seq<EntityRecord>, t: int, n: int) -> Option<SufferDamage>
    decreases n,
{
    if n <= 0 {
        rs[t].suffer_damage
    } else {
        let prev = suffer_after(rs, t, n - 1);
        if hits(rs, n - 1, t) {
            let before = match prev {
                Some(s) => s.amount as int,
                None => 0,
            };
            Some(SufferDamage { amount: clamp32(before + attack_damage(rs, n - 1)) as i32 })
        } else {
            prev
        }
    }
}

/// The record of an entity after the melee pass.
pub open spec fn after_melee(rs: Seq<EntityRecord>, e: int) -> EntityRecord {
    EntityRecord {
        wants_to_melee: None,
        suffer_damage: suffer_after(rs, e, rs.len() as int),
        ..rs[e]
    }
}

/// Records that agree on what the bonus sums read.
pub open spec fn same_gear(r1: Seq<EntityRecord>, r2: Seq<EntityRecord>) -> bool {
    &&& r1.len() == r2.len()
    &&& forall|i: int|
        0 <= i < r1.len() ==> (#[trigger] r1[i]).alive == r2[i].alive && r1[i].equipped
            == r2[i].equipped && r1[i].melee_power_bonus == r2[i].melee_power_bonus
            && r1[i].defense_bonus == r2[i].defense_bonus
}

proof fn lemma_bonus_frame(r1: Seq<EntityRecord>, r2: Seq<EntityRecord>, owner: int, n: int)
    requires
        same_gear(r1, r2),
        n <= r1.len(),
    ensures
        power_bonus(r1, owner, n) == power_bonus(r2, owner, n),
        defense_bonus(r1, owner, n) == defense_bonus(r2, owner, n),
    decreases n,
{
    if n > 0 {
        lemma_bonus_frame(r1, r2, owner, n - 1);
        assert(r1[n - 1].alive == r2[n - 1].alive);
    }
}

/// Damage of one blow: attack power plus the attacker's bonus, less defense
/// plus the target's bonus, and never below zero.
pub fn melee_damage(power: i32, offensive_bonus: i32, defense: i32, defensive_bonus: i32) -> (r: i32)
    ensures
        r == damage_of(power as int, offensive_bonus as int, defense as int, defensive_bonus as int),
{
    let d = sat_sub(sat_add(power, offensive_bonus), sat_add(defense, defensive_bonus));
    if d > 0 {
        d
    } else {
        0
    }
}

/// The log line for one attack.
pub fn melee_message(attacker: &String, target: &String, damage: i32) -> (m: String)
    ensures
        m@ == melee_text(attacker@, target@, damage as int),
{
    let mut m = attacker.clone();
    if damage == 0 {
        m.append(" is unable to hurt ");
        m.append(target.as_str());
    } else {
        m.append(" hits ");
        m.append(target.as_str());
        m.append(", for ");
        append_int(&mut m, damage);
        m.append(" hp.");
    }
    m
}

/// The attack bonus that the items equipped by `owner` give.
pub fn offensive_bonus(ecs: &World, owner: Entity) -> (r: i32)
    ensures
        r == power_bonus(ecs.entities@, owner as int, ecs.entities@.len() as int),
{
    let mut acc: i32 = 0;
    let mut i: usize = 0;
    while i < ecs.entities.len()
        invariant
            i <= ecs.entities@.len(),
            acc == power_bonus(ecs.entities@, owner as int, i as int),
        decreases ecs.entities@.len() - i,
    {
        let r = &ecs.entities[i];
        if r.alive {
            if let Some(eq) = r.equipped {
                if eq.owner == owner {
                    if let Some(b) = r.melee_power_bonus {
                        acc = sat_add(acc, b.power);
                    }
                }
            }
        }
        i = i + 1;
    }
    acc
}

/// The defense bonus that the items equipped by `owner` give.
pub fn defensive_bonus(ecs: &World, owner: Entity) -> (r: i32)
    ensures
        r == defense_bonus(ecs.entities@, owner as int, ecs.entities@.len() as int),
{
    let mut acc: i32 = 0;
    let mut i: usize = 0;
    while i < ecs.entities.len()
        invariant
            i <= ecs.entities@.len(),
            acc == defense_bonus(ecs.entities@, owner as int, i as int),
        decreases ecs.entities@.len() - i,
    {
        let r = &ecs.entities[i];
        if r.alive {
            if let Some(eq) = r.equipped {
                if eq.owner == owner {
                    if let Some(b) = r.defense_bonus {
                        acc = sat_add(acc, b.defense);
                    }
                }
            }
        }
        i = i + 1;
    }
    acc
}

/// What the melee pass does to the world.
pub open spec fn melee_pass(w0: World, w1: World) -> bool {
    &&& w1.entities@.len() == w0.entities@.len()
    &&& forall|e: int| 0 <= e < w0.entities@.len() ==> w1.entities@[e] == after_melee( w0.entities@, e, )
    &&& w1.log.view_texts() == melee_texts( w0.entities@, w0.entities@.len() as int, ) + w0.log.view_texts()
    &&& w1.map == w0.map
    &&& w1.run_state == w0.run_state
    &&& w1.player_entity == w0.player_entity
    &&& w1.player_pos == w0.player_pos
}

/// Resolves every melee intent into damage and log lines.
pub struct MeleeCombatSystem {}

impl MeleeCombatSystem {
    /// Each attack of a live, named attacker with positive hp on a live,
    /// named target with positive hp logs one line; a positive hit adds its
    /// damage to the target's accumulated damage. All intents are cleared.
    pub fn run(&mut self, ecs: &mut World)
        ensures
            melee_pass(*old(ecs), *final(ecs)),
    {
        let ghost r0 = ecs.entities@;
        let n = ecs.entities.len();
        let mut a: usize = 0;
        while a < n
            invariant
                n == r0.len(),
                a <= n,
                ecs.entities@.len() == n,
                forall|e: int|
                    0 <= e < n ==> ecs.entities@[e] == (EntityRecord {
                        suffer_damage: suffer_after(r0, e, a as int),
                        ..r0[e]
                    }),
                ecs.log.view_texts() == melee_texts(r0, a as int) + old(ecs).log.view_texts(),
                ecs.map == old(ecs).map,
                ecs.run_state == old(ecs).run_state,
                ecs.player_entity == old(ecs).player_entity,
                ecs.player_pos == old(ecs).player_pos,
                r0 == old(ecs).entities@,
            decreases n - a,
        {
            proof {
                assert(same_gear(ecs.entities@, r0));
            }
            if self.attack_is_valid(ecs, a) {
                let target = ecs.entities[a].wants_to_melee.unwrap().target;
                let power = ecs.entities[a].combat_stats.unwrap().power;
                let defense = ecs.entities[target].combat_stats.unwrap().defense;
                let ob = offensive_bonus(ecs, a);
                let db = defensive_bonus(ecs, target);
                proof {
                    lemma_bonus_frame(ecs.entities@, r0, a as int, n as int);
                    lemma_bonus_frame(ecs.entities@, r0, target as int, n as int);
                }
                let damage = melee_damage(power, ob, defense, db);
                let msg = match (&ecs.entities[a].name, &ecs.entities[target].name) {
                    (Some(an), Some(tn)) => melee_message(&an.name, &tn.name, damage),
                    _ => String::new(),
                };
                ecs.log.push_front(msg);
                if damage > 0 {
                    let before = match ecs.entities[target].suffer_damage {
                        Some(s) => s.amount,
                        None => 0,
                    };
                    let amount = sat_add(before, damage);
                    ecs.entities[target].suffer_damage = Some(SufferDamage { amount });
                }
            }
            a = a + 1;
        }
        let mut e: usize = 0;
        while e < n
            invariant
                n == r0.len(),
                e <= n,
                ecs.entities@.len() == n,
                forall|k: int|
                    0 <= k < n ==> ecs.entities@[k] == (EntityRecord {
                        suffer_damage: suffer_after(r0, k, n as int),
                        wants_to_melee: if k < e {
                            None
                        } else {
                            r0[k].wants_to_melee
                        },
                        ..r0[k]
                    }),
                ecs.log.view_texts() == melee_texts(r0, n as int) + old(ecs).log.view_texts(),
                ecs.map == old(ecs).map,
                ecs.run_state == old(ecs).run_state,
                ecs.player_entity == old(ecs).player_entity,
                ecs.player_pos == old(ecs).player_pos,
                r0 == old(ecs).entities@,
            decreases n - e,
        {
            ecs.entities[e].wants_to_melee = None;
            e = e + 1;
        }
    }

    fn attack_is_valid(&self, ecs: &World, a: Entity) -> (r: bool)
        requires
            a < ecs.entities@.len(),
        ensures
            r == attack_valid(ecs.entities@, a as int),
    {
        let rec = &ecs.entities[a];
        if !rec.alive || rec.name.is_none() {
            return false;
        }
        match (rec.wants_to_melee, rec.combat_stats) {
            (Some(w), Some(s)) => {
                if s.hp <= 0 || w.target >= ecs.entities.len() {
                    return false;
                }
                let t = &ecs.entities[w.target];
                t.alive && t.name.is_some() && match t.combat_stats {
                    Some(ts) => ts.hp > 0,
                    None => false,
                }
            },
            _ => false,
        }
    }
}

} // verus!
