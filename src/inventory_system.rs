use vstd::prelude::*;
use vstd::string::StringExecFns;
use crate::components::{
    clamp32, sat_add, CombatStats, Confusion, Entity, Equipped, InBackpack, Name, Position,
    SufferDamage,
};
use crate::ecs::{vacant, EntityRecord, World};
use crate::game_log::int_text;
use crate::map::Point;

verus! {

/// Equipping: a wearable item goes on in its slot; whatever the user wore
/// in that slot goes back to the backpack.
pub open spec fn equip_phase(rs: Seq<EntityRecord>, user: int, item: int) -> Seq<EntityRecord> {
    if rs[item].equippable is Some {
        let slot = rs[item].equippable.unwrap().slot;
        Seq::new(
            rs.len(),
            |e: int|
                if e == item {
                    EntityRecord {
                        equipped: Some(Equipped { owner: user as usize, slot }),
                        in_backpack: None,
                        ..rs[e]
                    }
                } else if rs[e].alive && rs[e].equipped == Some(
                    Equipped { owner: user as usize, slot },
                ) {
                    EntityRecord {
                        equipped: None,
                        in_backpack: Some(InBackpack { owner: user as usize }),
                        ..rs[e]
                    }
                } else {
                    rs[e]
                },
        )
    } else {
        rs
    }
}

/// Hit points after healing: raised by the amount, never above the maximum.
pub open spec fn healed_hp(hp: int, max_hp: int, amount: int) -> int {
    let raised = clamp32(hp + amount);
    if raised < max_hp {
        raised
    } else {
        max_hp
    }
}

/// Healing: the user's hp rises by the item's amount, up to its maximum.
pub open spec fn heal_phase(rs: Seq<EntityRecord>, user: int, item: int) -> Seq<EntityRecord> {
    if rs[item].provides_healing is Some && rs[user].combat_stats is Some {
        let cs = rs[user].combat_stats.unwrap();
        rs.update(
            user,
            EntityRecord {
                combat_stats: Some(
                    CombatStats {
                        hp: healed_hp(
                            cs.hp as int,
                            cs.max_hp as int,
                            rs[item].provides_healing.unwrap().heal_amount as int,
                        ) as i32,
                        ..cs
                    },
                ),
                ..rs[user]
            },
        )
    } else {
        rs
    }
}

/// The reach of an item around its target point: its area's radius, or the
/// target tile alone.
pub open spec fn reach(r: EntityRecord) -> int {
    if r.area_of_effect is Some {
        r.area_of_effect.unwrap().radius as int
    } else {
        0
    }
}

pub open spec fn abs_diff(a: int, b: int) -> int {
    if a >= b {
        a - b
    } else {
        b - a
    }
}

/// Whether entity `e` is a live fighter standing within `radius` tiles of
/// `p`, counting diagonal steps as one.
pub open spec fn struck(r: EntityRecord, p: Point, radius: int) -> bool {
    &&& r.alive
    &&& r.combat_stats is Some
    &&& r.position is Some
    &&& abs_diff(r.position.unwrap().x as int, p.x as int) <= radius
    &&& abs_diff(r.position.unwrap().y as int, p.y as int) <= radius
}

/// Damage: every fighter within reach of the target accumulates the
/// item's damage.
pub open spec fn strike_phase(rs: Seq<EntityRecord>, item: int, target: Option<Point>) -> Seq<
    EntityRecord,
> {
    if rs[item].inflicts_damage is Some && target is Some {
        let d = rs[item].inflicts_damage.unwrap().damage as int;
        Seq::new(
            rs.len(),
            |e: int|
                if struck(rs[e], target.unwrap(), reach(rs[item])) {
                    EntityRecord {
                        suffer_damage: Some(
                            SufferDamage {
                                amount: clamp32(
                                    match rs[e].suffer_damage {
                                        Some(s) => s.amount as int,
                                        None => 0,
                                    } + d,
                                ) as i32,
                            },
                        ),
                        ..rs[e]
                    }
                } else {
                    rs[e]
                },
        )
    } else {
        rs
    }
}

/// Confusion: every fighter within reach of the target is confused for the
/// item's number of turns.
pub open spec fn confuse_phase(rs: Seq<EntityRecord>, item: int, target: Option<Point>) -> Seq<
    EntityRecord,
> {
    if rs[item].confusion is Some && target is Some {
        Seq::new(
            rs.len(),
            |e: int|
                if struck(rs[e], target.unwrap(), reach(rs[item])) {
                    EntityRecord { confusion: rs[item].confusion, ..rs[e] }
                } else {
                    rs[e]
                },
        )
    } else {
        rs
    }
}

/// A consumable item is used up.
pub open spec fn consume_phase(rs: Seq<EntityRecord>, item: int) -> Seq<EntityRecord> {
    if rs[item].consumable is Some {
        rs.update(item, vacant())
    } else {
        rs
    }
}

/// The store after `user` uses `item` aimed at `target`: the effects in
/// order, then the item is used up if it is consumable.
pub open spec fn after_use(rs: Seq<EntityRecord>, user: int, item: int, target: Option<Point>) -> Seq<
    EntityRecord,
> {
    consume_phase(
        confuse_phase(
            strike_phase(heal_phase(equip_phase(rs, user, item), user, item), item, target),
            item,
            target,
        ),
        item,
    )
}

proof fn lemma_phases_keep_item(rs: Seq<EntityRecord>, user: int, item: int, target: Option<Point>)
    requires
        0 <= user < rs.len(),
        0 <= item < rs.len(),
        user != item,
    ensures
        ({
            let a = equip_phase(rs, user, item);
            let b = heal_phase(a, user, item);
            let c = strike_phase(b, item, target);
            let d = confuse_phase(c, item, target);
            &&& a.len() == rs.len() && b.len() == rs.len() && c.len() == rs.len() && d.len()
                == rs.len()
            &&& a[item].equippable == rs[item].equippable
            &&& a[item].provides_healing == rs[item].provides_healing
            &&& a[item].inflicts_damage == rs[item].inflicts_damage
            &&& a[item].area_of_effect == rs[item].area_of_effect
            &&& a[item].confusion == rs[item].confusion
            &&& a[item].consumable == rs[item].consumable
            &&& b[item] == a[item]
            &&& c[item].inflicts_damage == rs[item].inflicts_damage
            &&& c[item].area_of_effect == rs[item].area_of_effect
            &&& c[item].confusion == rs[item].confusion
            &&& c[item].consumable == rs[item].consumable
            &&& d[item].consumable == rs[item].consumable
        }),
{
}

fn chebyshev_within(pos: Position, p: Point, radius: i32) -> (r: bool)
    ensures
        r == (abs_diff(pos.x as int, p.x as int) <= radius && abs_diff(pos.y as int, p.y as int)
            <= radius),
{
    let dx: i64 = if pos.x as i64 >= p.x as i64 { pos.x as i64 - p.x as i64 } else { p.x as i64 - pos.x as i64 };
    let dy: i64 = if pos.y as i64 >= p.y as i64 { pos.y as i64 - p.y as i64 } else { p.y as i64 - pos.y as i64 };
    dx <= radius as i64 && dy <= radius as i64
}

fn is_struck(r: &EntityRecord, p: Point, radius: i32) -> (b: bool)
    ensures
        b == struck(*r, p, radius as int),
{
    if !r.alive || r.combat_stats.is_none() {
        return false;
    }
    match r.position {
        Some(pos) => chebyshev_within(pos, p, radius),
        None => false,
    }
}

/// Makes "<prefix><name><suffix>" for a log line.
/// A log line naming an entity (or nothing, when it has no name).
pub open spec fn about(prefix: Seq<char>, name: Option<Name>, suffix: Seq<char>) -> Seq<char> {
    prefix + match name {
        Some(n) => n.name@,
        None => Seq::<char>::empty(),
    } + suffix
}

fn line_about(prefix: &str, name: &Option<Name>, suffix: &str) -> (s: String)
    ensures
        s@ == about(prefix@, *name, suffix@),
{
    let mut s = String::from_str(prefix);
    if let Some(n) = name {
        s.append(n.name.as_str());
    }
    s.append(suffix);
    s
}

/// The lines of the equipping step for the first `n` entities, newest first.
pub open spec fn equip_texts(rs: Seq<EntityRecord>, user: int, item: int, n: int) -> Seq<Seq<char>>
    decreases n,
{
    if n <= 0 || rs[item].equippable is None {
        seq![]
    } else {
        let slot = rs[item].equippable.unwrap().slot;
        let prev = equip_texts(rs, user, item, n - 1);
        if n - 1 == item {
            seq![about("You equip the "@, rs[n - 1].name, "."@)] + prev
        } else if rs[n - 1].alive && rs[n - 1].equipped == Some(
            Equipped { owner: user as usize, slot },
        ) {
            seq![about("You unequip the "@, rs[n - 1].name, "."@)] + prev
        } else {
            prev
        }
    }
}

/// The line of the healing step.
pub open spec fn heal_texts(rs: Seq<EntityRecord>, user: int, item: int) -> Seq<Seq<char>> {
    if rs[item].provides_healing is Some && rs[user].combat_stats is Some {
        seq![
            about("You use the "@, rs[item].name, ", healing "@) + int_text(
                rs[item].provides_healing.unwrap().heal_amount as int,
            ) + " hp."@,
        ]
    } else {
        seq![]
    }
}

/// The line announcing an area effect.
pub open spec fn area_texts(rs: Seq<EntityRecord>, item: int, target: Option<Point>) -> Seq<Seq<char>> {
    if rs[item].inflicts_damage is Some && target is Some && rs[item].area_of_effect is Some {
        seq![about("You use the "@, rs[item].name, ", spreading it around you!"@)]
    } else {
        seq![]
    }
}

/// The lines of the damage step for the first `n` entities, newest first:
/// one per fighter struck, when the player is the user.
pub open spec fn strike_texts(
    rs: Seq<EntityRecord>,
    item: int,
    target: Option<Point>,
    by_player: bool,
    n: int,
) -> Seq<Seq<char>>
    decreases n,
{
    if n <= 0 || rs[item].inflicts_damage is None || target is None || !by_player {
        seq![]
    } else {
        let prev = strike_texts(rs, item, target, by_player, n - 1);
        if struck(rs[n - 1], target.unwrap(), reach(rs[item])) {
            seq![
                about("It hits "@, rs[n - 1].name, ", for "@) + int_text(
                    rs[item].inflicts_damage.unwrap().damage as int,
                ) + " hp."@,
            ] + prev
        } else {
            prev
        }
    }
}

/// The lines of the confusion step for the first `n` entities, newest first.
pub open spec fn confuse_texts(rs: Seq<EntityRecord>, item: int, target: Option<Point>, n: int) -> Seq<
    Seq<char>,
>
    decreases n,
{
    if n <= 0 || rs[item].confusion is None || target is None {
        seq![]
    } else {
        let prev = confuse_texts(rs, item, target, n - 1);
        if struck(rs[n - 1], target.unwrap(), reach(rs[item])) {
            seq![about(""@, rs[n - 1].name, " is confused"@)] + prev
        } else {
            prev
        }
    }
}

/// Everything that using an item writes to the log, newest first.
pub open spec fn use_texts(
    rs: Seq<EntityRecord>,
    user: int,
    item: int,
    target: Option<Point>,
    by_player: bool,
) -> Seq<Seq<char>> {
    let r1 = equip_phase(rs, user, item);
    let r2 = heal_phase(r1, user, item);
    let r3 = strike_phase(r2, item, target);
    let n = rs.len() as int;
    confuse_texts(r3, item, target, n) + strike_texts(r2, item, target, by_player, n) + area_texts(
        r2,
        item,
        target,
    ) + heal_texts(r1, user, item) + equip_texts(rs, user, item, n)
}

fn equip_step(ecs: &mut World, user: Entity, item: Entity)
    requires
        user < old(ecs).entities@.len(),
        item < old(ecs).entities@.len(),
        user != item,
    ensures
        final(ecs).entities@ == equip_phase(old(ecs).entities@, user as int, item as int),
        final(ecs).log.view_texts() == equip_texts(
            old(ecs).entities@,
            user as int,
            item as int,
            old(ecs).entities@.len() as int,
        ) + old(ecs).log.view_texts(),
        final(ecs).entities@.len() == old(ecs).entities@.len(),
        final(ecs).map == old(ecs).map,
        final(ecs).run_state == old(ecs).run_state,
        final(ecs).player_entity == old(ecs).player_entity,
        final(ecs).player_pos == old(ecs).player_pos,
{
    let ghost r0 = ecs.entities@;
    let ghost l0 = ecs.log.view_texts();
    let n = ecs.entities.len();
    if let Some(eq) = ecs.entities[item].equippable {
        let mut e: usize = 0;
        while e < n
            invariant
                n == r0.len(),
                e <= n,
                user < n,
                item < n,
                r0[item as int].equippable == Some(eq),
                ecs.entities@.len() == n,
                forall|k: int|
                    0 <= k < n ==> #[trigger] ecs.entities@[k] == if k < e {
                        equip_phase(r0, user as int, item as int)[k]
                    } else {
                        r0[k]
                    },
                ecs.log.view_texts() == equip_texts(r0, user as int, item as int, e as int) + l0,
                ecs.map == old(ecs).map,
                ecs.run_state == old(ecs).run_state,
                ecs.player_entity == old(ecs).player_entity,
                ecs.player_pos == old(ecs).player_pos,
            decreases n - e,
        {
            proof {
                assert(ecs.entities@[e as int] == r0[e as int]);
            }
            if e == item {
                ecs.entities[e].equipped = Some(Equipped { owner: user, slot: eq.slot });
                ecs.entities[e].in_backpack = None;
                let msg = line_about("You equip the ", &ecs.entities[e].name, ".");
                ecs.log.push_front(msg);
            } else if ecs.entities[e].alive && ecs.entities[e].equipped == Some(
                Equipped { owner: user, slot: eq.slot },
            ) {
                ecs.entities[e].equipped = None;
                ecs.entities[e].in_backpack = Some(InBackpack { owner: user });
                let msg = line_about("You unequip the ", &ecs.entities[e].name, ".");
                ecs.log.push_front(msg);
            }
            e = e + 1;
        }
    }
    proof {
        assert(ecs.entities@ =~= equip_phase(r0, user as int, item as int));
    }
}

fn heal_step(ecs: &mut World, user: Entity, item: Entity)
    requires
        user < old(ecs).entities@.len(),
        item < old(ecs).entities@.len(),
        user != item,
    ensures
        final(ecs).entities@ == heal_phase(old(ecs).entities@, user as int, item as int),
        final(ecs).log.view_texts() == heal_texts(old(ecs).entities@, user as int, item as int)
            + old(ecs).log.view_texts(),
        final(ecs).entities@.len() == old(ecs).entities@.len(),
        final(ecs).map == old(ecs).map,
        final(ecs).run_state == old(ecs).run_state,
        final(ecs).player_entity == old(ecs).player_entity,
        final(ecs).player_pos == old(ecs).player_pos,
{
    let ghost r1 = ecs.entities@;
    let ghost l1 = ecs.log.view_texts();
    if let Some(heal) = ecs.entities[item].provides_healing {
        if let Some(cs) = ecs.entities[user].combat_stats {
            let raised = sat_add(cs.hp, heal.heal_amount);
            let hp = if raised < cs.max_hp { raised } else { cs.max_hp };
            ecs.entities[user].combat_stats = Some(CombatStats { hp, ..cs });
            let mut msg = line_about("You use the ", &ecs.entities[item].name, ", healing ");
            crate::game_log::append_int(&mut msg, heal.heal_amount);
            msg.append(" hp.");
            ecs.log.push_front(msg);
        }
    }
    proof {
        assert(ecs.entities@ =~= heal_phase(r1, user as int, item as int));
        assert(ecs.log.view_texts() =~= heal_texts(r1, user as int, item as int) + l1);
    }
}

fn strike_step(ecs: &mut World, item: Entity, target: Option<Point>, by_player: bool)
    requires
        item < old(ecs).entities@.len(),
    ensures
        final(ecs).entities@ == strike_phase(old(ecs).entities@, item as int, target),
        final(ecs).log.view_texts() == strike_texts(
            old(ecs).entities@,
            item as int,
            target,
            by_player,
            old(ecs).entities@.len() as int,
        ) + area_texts(old(ecs).entities@, item as int, target) + old(ecs).log.view_texts(),
        final(ecs).entities@.len() == old(ecs).entities@.len(),
        final(ecs).map == old(ecs).map,
        final(ecs).run_state == old(ecs).run_state,
        final(ecs).player_entity == old(ecs).player_entity,
        final(ecs).player_pos == old(ecs).player_pos,
{
    let ghost r2 = ecs.entities@;
    let ghost l2 = ecs.log.view_texts();
    let n = ecs.entities.len();
    let radius: i32 = match ecs.entities[item].area_of_effect {
        Some(a) => a.radius,
        None => 0,
    };
    if let (Some(dmg), Some(p)) = (ecs.entities[item].inflicts_damage, target) {
        if ecs.entities[item].area_of_effect.is_some() {
            let msg = line_about("You use the ", &ecs.entities[item].name, ", spreading it around you!");
            ecs.log.push_front(msg);
        }
        let ghost la = ecs.log.view_texts();
        proof {
            assert(la =~= area_texts(r2, item as int, target) + l2);
        }
        let mut e: usize = 0;
        while e < n
            invariant
                n == r2.len(),
                e <= n,
                item < n,
                r2[item as int].inflicts_damage == Some(dmg),
                target == Some(p),
                radius == reach(r2[item as int]),
                ecs.entities@.len() == n,
                forall|k: int|
                    0 <= k < n ==> #[trigger] ecs.entities@[k] == if k < e {
                        strike_phase(r2, item as int, target)[k]
                    } else {
                        r2[k]
                    },
                ecs.log.view_texts() == strike_texts(r2, item as int, target, by_player, e as int)
                    + la,
                ecs.map == old(ecs).map,
                ecs.run_state == old(ecs).run_state,
                ecs.player_entity == old(ecs).player_entity,
                ecs.player_pos == old(ecs).player_pos,
            decreases n - e,
        {
            proof {
                assert(ecs.entities@[e as int] == r2[e as int]);
            }
            if is_struck(&ecs.entities[e], p, radius) {
                let before = match ecs.entities[e].suffer_damage {
                    Some(s) => s.amount,
                    None => 0,
                };
                let amount = sat_add(before, dmg.damage);
                ecs.entities[e].suffer_damage = Some(SufferDamage { amount });
                if by_player {
                    let mut msg = line_about("It hits ", &ecs.entities[e].name, ", for ");
                    crate::game_log::append_int(&mut msg, dmg.damage);
                    msg.append(" hp.");
                    ecs.log.push_front(msg);
                }
            }
            e = e + 1;
        }
    }
    proof {
        assert(ecs.entities@ =~= strike_phase(r2, item as int, target));
        assert(ecs.log.view_texts() =~= strike_texts(r2, item as int, target, by_player, n as int)
            + area_texts(r2, item as int, target) + l2);
    }
}

fn confuse_step(ecs: &mut World, item: Entity, target: Option<Point>)
    requires
        item < old(ecs).entities@.len(),
    ensures
        final(ecs).entities@ == confuse_phase(old(ecs).entities@, item as int, target),
        final(ecs).log.view_texts() == confuse_texts(
            old(ecs).entities@,
            item as int,
            target,
            old(ecs).entities@.len() as int,
        ) + old(ecs).log.view_texts(),
        final(ecs).entities@.len() == old(ecs).entities@.len(),
        final(ecs).map == old(ecs).map,
        final(ecs).run_state == old(ecs).run_state,
        final(ecs).player_entity == old(ecs).player_entity,
        final(ecs).player_pos == old(ecs).player_pos,
{
    let ghost r3 = ecs.entities@;
    let ghost l3 = ecs.log.view_texts();
    let n = ecs.entities.len();
    let radius: i32 = match ecs.entities[item].area_of_effect {
        Some(a) => a.radius,
        None => 0,
    };
    if let (Some(conf), Some(p)) = (ecs.entities[item].confusion, target) {
        let mut e: usize = 0;
        while e < n
            invariant
                n == r3.len(),
                e <= n,
                item < n,
                r3[item as int].confusion == Some(conf),
                target == Some(p),
                radius == reach(r3[item as int]),
                ecs.entities@.len() == n,
                forall|k: int|
                    0 <= k < n ==> #[trigger] ecs.entities@[k] == if k < e {
                        confuse_phase(r3, item as int, target)[k]
                    } else {
                        r3[k]
                    },
                ecs.log.view_texts() == confuse_texts(r3, item as int, target, e as int) + l3,
                ecs.map == old(ecs).map,
                ecs.run_state == old(ecs).run_state,
                ecs.player_entity == old(ecs).player_entity,
                ecs.player_pos == old(ecs).player_pos,
            decreases n - e,
        {
            proof {
                assert(ecs.entities@[e as int] == r3[e as int]);
            }
            if is_struck(&ecs.entities[e], p, radius) {
                ecs.entities[e].confusion = Some(conf);
                let msg = line_about("", &ecs.entities[e].name, " is confused");
                ecs.log.push_front(msg);
            }
            e = e + 1;
        }
    }
    proof {
        assert(ecs.entities@ =~= confuse_phase(r3, item as int, target));
        assert(ecs.log.view_texts() =~= confuse_texts(r3, item as int, target, n as int) + l3);
    }
}

/// Uses an item: equips it if wearable, heals the user, damages and confuses
/// the fighters around the target, then uses it up if consumable. Lines
/// describing what happened go to the front of the log.
pub fn use_item(ecs: &mut World, user: Entity, item: Entity, target: Option<Point>)
    requires
        user < old(ecs).entities@.len(),
        item < old(ecs).entities@.len(),
        user != item,
    ensures
        final(ecs).entities@ == after_use(old(ecs).entities@, user as int, item as int, target),
        final(ecs).log.view_texts() == use_texts(
            old(ecs).entities@,
            user as int,
            item as int,
            target,
            user == old(ecs).player_entity,
        ) + old(ecs).log.view_texts(),
        final(ecs).map == old(ecs).map,
        final(ecs).run_state == old(ecs).run_state,
        final(ecs).player_entity == old(ecs).player_entity,
        final(ecs).player_pos == old(ecs).player_pos,
{
    let ghost r0 = ecs.entities@;
    let ghost l0 = ecs.log.view_texts();
    let by_player = user == ecs.player_entity;
    equip_step(ecs, user, item);
    let ghost r1 = ecs.entities@;
    let ghost l1 = ecs.log.view_texts();
    heal_step(ecs, user, item);
    let ghost r2 = ecs.entities@;
    let ghost l2 = ecs.log.view_texts();
    strike_step(ecs, item, target, by_player);
    let ghost r3 = ecs.entities@;
    let ghost l3 = ecs.log.view_texts();
    confuse_step(ecs, item, target);
    proof {
        let e = equip_texts(r0, user as int, item as int, r0.len() as int);
        let h = heal_texts(r1, user as int, item as int);
        let a = area_texts(r2, item as int, target);
        let st = strike_texts(r2, item as int, target, by_player, r0.len() as int);
        let c = confuse_texts(r3, item as int, target, r0.len() as int);
        assert(l1 == e + l0);
        assert(l2 == h + l1);
        assert(l3 == st + a + l2);
        assert(ecs.log.view_texts() == c + l3);
        assert(ecs.log.view_texts() =~= (c + st + a + h + e) + l0);
    }
    if ecs.entities[item].consumable.is_some() {
        ecs.delete_entity(item);
    }
}

/// Healing never lifts a user's hp above its maximum: a user at or below
/// its maximum ends at the lesser of the maximum and hp plus the amount.
pub proof fn law_healing_clamps_at_max(
    rs: Seq<EntityRecord>,
    user: int,
    item: int,
    target: Option<Point>,
)
    requires
        0 <= user < rs.len(),
        0 <= item < rs.len(),
        user != item,
        rs[user].combat_stats is Some,
        rs[user].combat_stats.unwrap().hp <= rs[user].combat_stats.unwrap().max_hp,
        rs[item].provides_healing is Some,
        rs[item].provides_healing.unwrap().heal_amount >= 0,
    ensures
        ({
            let cs = rs[user].combat_stats.unwrap();
            let after = after_use(rs, user, item, target)[user].combat_stats.unwrap();
            &&& after.hp <= cs.max_hp
            &&& after.hp == if cs.hp + rs[item].provides_healing.unwrap().heal_amount < cs.max_hp {
                cs.hp + rs[item].provides_healing.unwrap().heal_amount
            } else {
                cs.max_hp as int
            }
            &&& after.max_hp == cs.max_hp
        }),
{
    lemma_phases_keep_item(rs, user, item, target);
}

/// An item with damage and an area, used at point `p`, adds its damage to
/// every live fighter within the radius of `p` (diagonals count as one
/// step) and to no other entity.
pub proof fn law_area_damage_reaches_radius(
    rs: Seq<EntityRecord>,
    user: int,
    item: int,
    p: Point,
    e: int,
)
    requires
        0 <= user < rs.len(),
        0 <= item < rs.len(),
        0 <= e < rs.len(),
        user != item,
        e != item,
        rs[item].inflicts_damage is Some,
        rs[item].area_of_effect is Some,
    ensures
        ({
            let radius = rs[item].area_of_effect.unwrap().radius as int;
            let d = rs[item].inflicts_damage.unwrap().damage as int;
            let before = match rs[e].suffer_damage {
                Some(s) => s.amount as int,
                None => 0,
            };
            let after = after_use(rs, user, item, Some(p))[e];
            &&& struck(rs[e], p, radius) ==> after.suffer_damage == Some(
                SufferDamage { amount: clamp32(before + d) as i32 },
            )
            &&& !struck(rs[e], p, radius) ==> after.suffer_damage == rs[e].suffer_damage
        }),
{
    lemma_phases_keep_item(rs, user, item, Some(p));
    let a = equip_phase(rs, user, item);
    let b = heal_phase(a, user, item);
    assert(b[e].alive == rs[e].alive && b[e].position == rs[e].position && (b[e].combat_stats is Some)
        == (rs[e].combat_stats is Some) && b[e].suffer_damage == rs[e].suffer_damage);
}

/// A consumable item is gone from the store once used; a wearable item that
/// is not consumable stays, worn by its user in its slot.
pub proof fn law_consumables_are_used_up(
    rs: Seq<EntityRecord>,
    user: int,
    item: int,
    target: Option<Point>,
)
    requires
        0 <= user < rs.len(),
        0 <= item < rs.len(),
        user != item,
    ensures
        rs[item].consumable is Some ==> after_use(rs, user, item, target)[item] == vacant(),
        rs[item].consumable is None && rs[item].equippable is Some ==> {
            let after = after_use(rs, user, item, target)[item];
            &&& after.alive == rs[item].alive
            &&& after.equipped == Some(
                Equipped { owner: user as usize, slot: rs[item].equippable.unwrap().slot },
            )
            &&& after.in_backpack is None
        },
{
    lemma_phases_keep_item(rs, user, item, target);
}

/// The store once the use intents of the first `n` entities are carried
/// out, each in turn on the store as the earlier ones left it; an intent
/// counts when it names another live entity of the store.
pub open spec fn use_fold(rs: Seq<EntityRecord>, n: int) -> Seq<EntityRecord>
    decreases n,
{
    if n <= 0 {
        rs
    } else {
        let c = use_fold(rs, n - 1);
        let k = n - 1;
        match c[k].wants_to_use_item {
            Some(w) => if w.item < c.len() && w.item != k && c[w.item as int].alive {
                after_use(c, k, w.item as int, w.target)
            } else {
                c
            },
            None => c,
        }
    }
}

/// The lines that the use intents of the first `n` entities add, newest first.
pub open spec fn use_fold_texts(rs: Seq<EntityRecord>, player: int, n: int) -> Seq<Seq<char>>
    decreases n,
{
    if n <= 0 {
        seq![]
    } else {
        let c = use_fold(rs, n - 1);
        let k = n - 1;
        let prev = use_fold_texts(rs, player, n - 1);
        match c[k].wants_to_use_item {
            Some(w) => if w.item < c.len() && w.item != k && c[w.item as int].alive {
                use_texts(c, k, w.item as int, w.target, k == player) + prev
            } else {
                prev
            },
            None => prev,
        }
    }
}

proof fn lemma_use_fold_len(rs: Seq<EntityRecord>, n: int)
    requires
        0 <= n <= rs.len(),
    ensures
        use_fold(rs, n).len() == rs.len(),
    decreases n,
{
    if n > 0 {
        lemma_use_fold_len(rs, n - 1);
        let c = use_fold(rs, n - 1);
        let k = n - 1;
        if let Some(w) = c[k].wants_to_use_item {
            if w.item < c.len() && w.item != k && c[w.item as int].alive {
                lemma_after_use_keeps_intents(c, k, w.item as int, w.target);
            }
        }
    }
}

pub open spec fn clear_use_intents(rs: Seq<EntityRecord>) -> Seq<EntityRecord> {
    Seq::new(rs.len(), |e: int| EntityRecord { wants_to_use_item: None, ..rs[e] })
}

proof fn lemma_after_use_keeps_intents(rs: Seq<EntityRecord>, user: int, item: int, target: Option<Point>)
    requires
        0 <= user < rs.len(),
        0 <= item < rs.len(),
        user != item,
    ensures
        after_use(rs, user, item, target).len() == rs.len(),
        forall|e: int|
            0 <= e < rs.len() && e != item ==> (#[trigger] after_use(rs, user, item, target)[e]).wants_to_use_item
                == rs[e].wants_to_use_item,
        rs[item].wants_to_use_item is None ==> after_use(rs, user, item, target)[item].wants_to_use_item is None,
{
    lemma_phases_keep_item(rs, user, item, target);
}

/// What the item-use pass does to the world.
pub open spec fn use_pass(w0: World, w1: World) -> bool {
    &&& w1.entities@ == clear_use_intents( use_fold(w0.entities@, w0.entities@.len() as int), )
    &&& w1.log.view_texts() == use_fold_texts( w0.entities@, w0.player_entity as int, w0.entities@.len() as int, ) + w0.log.view_texts()
    &&& w1.map == w0.map
    &&& w1.run_state == w0.run_state
    &&& w1.player_entity == w0.player_entity
    &&& w1.player_pos == w0.player_pos
}

/// Carries out the item-use intents.
pub struct ItemUseSystem {}

impl ItemUseSystem {
    /// Each entity in turn that intends to use another live entity of the
    /// store uses it; then every use intent is cleared.
    pub fn run(&mut self, ecs: &mut World)
        ensures
            use_pass(*old(ecs), *final(ecs)),
    {
        let ghost r0 = ecs.entities@;
        let ghost l0 = ecs.log.view_texts();
        let n = ecs.entities.len();
        let mut e: usize = 0;
        while e < n
            invariant
                e <= n,
                n == r0.len(),
                r0 == old(ecs).entities@,
                l0 == old(ecs).log.view_texts(),
                ecs.entities@ == use_fold(r0, e as int),
                ecs.log.view_texts() == use_fold_texts(r0, ecs.player_entity as int, e as int) + l0,
                ecs.map == old(ecs).map,
                ecs.run_state == old(ecs).run_state,
                ecs.player_entity == old(ecs).player_entity,
                ecs.player_pos == old(ecs).player_pos,
            decreases n - e,
        {
            proof {
                lemma_use_fold_len(r0, e as int);
            }
            if let Some(intent) = ecs.entities[e].wants_to_use_item {
                let item = intent.item;
                if item < n && item != e && ecs.entities[item].alive {
                    use_item(ecs, e, item, intent.target);
                    proof {
                        assert(ecs.log.view_texts() =~= use_fold_texts(
                            r0,
                            ecs.player_entity as int,
                            e + 1,
                        ) + l0);
                    }
                }
            }
            e = e + 1;
        }
        proof {
            lemma_use_fold_len(r0, n as int);
        }
        let ghost r1 = ecs.entities@;
        let mut k: usize = 0;
        while k < n
            invariant
                k <= n,
                ecs.entities@.len() == n,
                r1.len() == n,
                forall|j: int|
                    0 <= j < n ==> #[trigger] ecs.entities@[j] == if j < k {
                        EntityRecord { wants_to_use_item: None, ..r1[j] }
                    } else {
                        r1[j]
                    },
                ecs.log.view_texts() == use_fold_texts(r0, ecs.player_entity as int, n as int) + l0,
                ecs.map == old(ecs).map,
                ecs.run_state == old(ecs).run_state,
                ecs.player_entity == old(ecs).player_entity,
                ecs.player_pos == old(ecs).player_pos,
            decreases n - k,
        {
            ecs.entities[k].wants_to_use_item = None;
            k = k + 1;
        }
        proof {
            assert(ecs.entities@ =~= clear_use_intents(r1));
        }
    }
}

/// The last of the first `n` entities whose pickup intent names the live item `i`.
pub open spec fn last_picker(rs: Seq<EntityRecord>, i: int, n: int) -> Option<int>
    decreases n,
{
    if n <= 0 {
        None
    } else if rs[n - 1].wants_to_pickup_item is Some && rs[n - 1].wants_to_pickup_item.unwrap().item
        == i && rs[i].alive {
        Some(n - 1)
    } else {
        last_picker(rs, i, n - 1)
    }
}

/// The record of an entity once the pickup intents of the first `n`
/// entities are carried out: a picked-up item leaves the map for the
/// backpack of the one who picked it up last.
pub open spec fn picked(rs: Seq<EntityRecord>, e: int, n: int) -> EntityRecord {
    match last_picker(rs, e, n) {
        Some(k) => EntityRecord {
            position: None,
            in_backpack: Some(
                InBackpack { owner: rs[k].wants_to_pickup_item.unwrap().collected_by },
            ),
            ..rs[e]
        },
        None => rs[e],
    }
}

/// The record of an entity after the pickup pass, intents cleared.
pub open spec fn after_pickup(rs: Seq<EntityRecord>, e: int) -> EntityRecord {
    EntityRecord { wants_to_pickup_item: None, ..picked(rs, e, rs.len() as int) }
}

/// The lines that the pickups of the first `n` entities add, newest first:
/// one for each live item that the player picks up.
pub open spec fn pickup_texts(rs: Seq<EntityRecord>, player: int, n: int) -> Seq<Seq<char>>
    decreases n,
{
    if n <= 0 {
        seq![]
    } else {
        let prev = pickup_texts(rs, player, n - 1);
        match rs[n - 1].wants_to_pickup_item {
            Some(w) => if w.item < rs.len() && rs[w.item as int].alive && w.collected_by == player {
                seq![about("You pick up the "@, rs[w.item as int].name, "."@)] + prev
            } else {
                prev
            },
            None => prev,
        }
    }
}

/// What the pickup pass does to the world.
pub open spec fn pickup_pass(w0: World, w1: World) -> bool {
    &&& w1.entities@.len() == w0.entities@.len()
    &&& forall|e: int| 0 <= e < w0.entities@.len() ==> #[trigger] w1.entities@[e] == after_pickup(w0.entities@, e)
    &&& w1.log.view_texts() == pickup_texts( w0.entities@, w0.player_entity as int, w0.entities@.len() as int, ) + w0.log.view_texts()
    &&& w1.map == w0.map
    &&& w1.run_state == w0.run_state
    &&& w1.player_entity == w0.player_entity
    &&& w1.player_pos == w0.player_pos
}

/// Carries out the pickup intents.
pub struct ItemCollectionSystem {}

impl ItemCollectionSystem {
    /// Each pickup intent on a live item moves it from the map into the
    /// collector's backpack; every pickup intent is then cleared.
    pub fn run(&mut self, ecs: &mut World)
        ensures
            pickup_pass(*old(ecs), *final(ecs)),
    {
        let ghost r0 = ecs.entities@;
        let ghost l0 = ecs.log.view_texts();
        let n = ecs.entities.len();
        let mut e: usize = 0;
        while e < n
            invariant
                e <= n,
                n == r0.len(),
                r0 == old(ecs).entities@,
                l0 == old(ecs).log.view_texts(),
                ecs.entities@.len() == n,
                forall|k: int|
                    0 <= k < n ==> #[trigger] ecs.entities@[k] == picked(r0, k, e as int),
                ecs.log.view_texts() == pickup_texts(r0, ecs.player_entity as int, e as int) + l0,
                ecs.map == old(ecs).map,
                ecs.run_state == old(ecs).run_state,
                ecs.player_entity == old(ecs).player_entity,
                ecs.player_pos == old(ecs).player_pos,
            decreases n - e,
        {
            proof {
                assert(ecs.entities@[e as int].wants_to_pickup_item == r0[e as int].wants_to_pickup_item);
            }
            if let Some(intent) = ecs.entities[e].wants_to_pickup_item {
                let item = intent.item;
                if item < n && ecs.entities[item].alive {
                    proof {
                        assert(ecs.entities@[item as int].alive == r0[item as int].alive);
                    }
                    ecs.entities[item].position = None;
                    ecs.entities[item].in_backpack = Some(InBackpack { owner: intent.collected_by });
                    if intent.collected_by == ecs.player_entity {
                        proof {
                            assert(ecs.entities@[item as int].name == r0[item as int].name);
                        }
                        let msg = line_about("You pick up the ", &ecs.entities[item].name, ".");
                        ecs.log.push_front(msg);
                        proof {
                            assert(ecs.log.view_texts() =~= pickup_texts(
                                r0,
                                ecs.player_entity as int,
                                e + 1,
                            ) + l0);
                        }
                    }
                } else {
                    proof {
                        if item < n {
                            assert(ecs.entities@[item as int].alive == r0[item as int].alive);
                        }
                    }
                }
            }
            e = e + 1;
        }
        let ghost r1 = ecs.entities@;
        let mut k: usize = 0;
        while k < n
            invariant
                k <= n,
                n == r0.len(),
                ecs.entities@.len() == n,
                forall|j: int|
                    0 <= j < n ==> #[trigger] ecs.entities@[j] == if j < k {
                        after_pickup(r0, j)
                    } else {
                        r1[j]
                    },
                forall|j: int| 0 <= j < n ==> #[trigger] r1[j] == picked(r0, j, n as int),
                ecs.log.view_texts() == pickup_texts(r0, ecs.player_entity as int, n as int) + l0,
                ecs.map == old(ecs).map,
                ecs.run_state == old(ecs).run_state,
                ecs.player_entity == old(ecs).player_entity,
                ecs.player_pos == old(ecs).player_pos,
            decreases n - k,
        {
            ecs.entities[k].wants_to_pickup_item = None;
            k = k + 1;
        }
    }
}

/// Whether entity `k` intends to drop the item `i` and can: it is not an item
/// itself, has a position, and `i` is a live item.
pub open spec fn drops(rs: Seq<EntityRecord>, k: int, i: int) -> bool {
    &&& rs[k].wants_to_drop_item is Some
    &&& rs[k].wants_to_drop_item.unwrap().item == i
    &&& k != i
    &&& rs[k].item is None
    &&& rs[k].position is Some
    &&& rs[i].alive
    &&& rs[i].item is Some
}

/// The last of the first `n` entities that drops item `i`.
pub open spec fn last_dropper(rs: Seq<EntityRecord>, i: int, n: int) -> Option<int>
    decreases n,
{
    if n <= 0 {
        None
    } else if drops(rs, n - 1, i) {
        Some(n - 1)
    } else {
        last_dropper(rs, i, n - 1)
    }
}

proof fn lemma_no_dropper(rs: Seq<EntityRecord>, i: int, n: int)
    requires
        rs[i].item is None,
    ensures
        last_dropper(rs, i, n) is None,
    decreases n,
{
    if n > 0 {
        lemma_no_dropper(rs, i, n - 1);
    }
}

/// An entity once the drop intents of the first `n` entities are carried
/// out: a dropped item leaves the backpack for the dropper's tile.
pub open spec fn dropped(rs: Seq<EntityRecord>, e: int, n: int) -> EntityRecord {
    match last_dropper(rs, e, n) {
        Some(k) => EntityRecord { position: rs[k].position, in_backpack: None, ..rs[e] },
        None => rs[e],
    }
}

pub open spec fn after_drop(rs: Seq<EntityRecord>, e: int) -> EntityRecord {
    EntityRecord { wants_to_drop_item: None, ..dropped(rs, e, rs.len() as int) }
}

/// The lines that the drops of the first `n` entities add, newest first:
/// one for each item that the player drops.
pub open spec fn drop_texts(rs: Seq<EntityRecord>, player: int, n: int) -> Seq<Seq<char>>
    decreases n,
{
    if n <= 0 {
        seq![]
    } else {
        let prev = drop_texts(rs, player, n - 1);
        match rs[n - 1].wants_to_drop_item {
            Some(w) => if w.item < rs.len() && drops(rs, n - 1, w.item as int) && n - 1 == player {
                seq![about("You drop the "@, rs[w.item as int].name, "."@)] + prev
            } else {
                prev
            },
            None => prev,
        }
    }
}

/// What the drop pass does to the world.
pub open spec fn drop_pass(w0: World, w1: World) -> bool {
    &&& w1.entities@.len() == w0.entities@.len()
    &&& forall|e: int| 0 <= e < w0.entities@.len() ==> #[trigger] w1.entities@[e] == after_drop(w0.entities@, e)
    &&& w1.log.view_texts() == drop_texts( w0.entities@, w0.player_entity as int, w0.entities@.len() as int, ) + w0.log.view_texts()
    &&& w1.map == w0.map
    &&& w1.run_state == w0.run_state
    &&& w1.player_entity == w0.player_entity
    &&& w1.player_pos == w0.player_pos
}

/// Carries out the drop intents.
pub struct ItemDropSystem {}

impl ItemDropSystem {
    /// Each drop intent puts the item down on the dropper's tile; every drop
    /// intent is then cleared.
    pub fn run(&mut self, ecs: &mut World)
        ensures
            drop_pass(*old(ecs), *final(ecs)),
    {
        let ghost r0 = ecs.entities@;
        let ghost l0 = ecs.log.view_texts();
        let n = ecs.entities.len();
        let mut e: usize = 0;
        while e < n
            invariant
                e <= n,
                n == r0.len(),
                r0 == old(ecs).entities@,
                l0 == old(ecs).log.view_texts(),
                ecs.entities@.len() == n,
                forall|k: int| 0 <= k < n ==> #[trigger] ecs.entities@[k] == dropped(r0, k, e as int),
                ecs.log.view_texts() == drop_texts(r0, ecs.player_entity as int, e as int) + l0,
                ecs.map == old(ecs).map,
                ecs.run_state == old(ecs).run_state,
                ecs.player_entity == old(ecs).player_entity,
                ecs.player_pos == old(ecs).player_pos,
            decreases n - e,
        {
            proof {
                assert(ecs.entities@[e as int].wants_to_drop_item == r0[e as int].wants_to_drop_item);
            }
            if let Some(intent) = ecs.entities[e].wants_to_drop_item {
                let item = intent.item;
                if item < n && item != e {
                    proof {
                        assert(ecs.entities@[item as int].alive == r0[item as int].alive);
                        assert(ecs.entities@[item as int].item == r0[item as int].item);
                        assert(ecs.entities@[e as int].item == r0[e as int].item);
                        if r0[e as int].item is None {
                            lemma_no_dropper(r0, e as int, e as int);
                            assert(ecs.entities@[e as int].position == r0[e as int].position);
                        }
                    }
                    if ecs.entities[e].item.is_none() && ecs.entities[item].alive
                        && ecs.entities[item].item.is_some() {
                        if let Some(pos) = ecs.entities[e].position {
                            ecs.entities[item].position = Some(pos);
                            ecs.entities[item].in_backpack = None;
                            if e == ecs.player_entity {
                                proof {
                                    assert(ecs.entities@[item as int].name == r0[item as int].name);
                                }
                                let msg = line_about("You drop the ", &ecs.entities[item].name, ".");
                                ecs.log.push_front(msg);
                                proof {
                                    assert(ecs.log.view_texts() =~= drop_texts(
                                        r0,
                                        ecs.player_entity as int,
                                        e + 1,
                                    ) + l0);
                                }
                            }
                        }
                    }
                }
            }
            e = e + 1;
        }
        let ghost r1 = ecs.entities@;
        let mut k: usize = 0;
        while k < n
            invariant
                k <= n,
                n == r0.len(),
                ecs.entities@.len() == n,
                forall|j: int|
                    0 <= j < n ==> #[trigger] ecs.entities@[j] == if j < k {
                        after_drop(r0, j)
                    } else {
                        r1[j]
                    },
                forall|j: int| 0 <= j < n ==> #[trigger] r1[j] == dropped(r0, j, n as int),
                ecs.log.view_texts() == drop_texts(r0, ecs.player_entity as int, n as int) + l0,
                ecs.map == old(ecs).map,
                ecs.run_state == old(ecs).run_state,
                ecs.player_entity == old(ecs).player_entity,
                ecs.player_pos == old(ecs).player_pos,
            decreases n - k,
        {
            ecs.entities[k].wants_to_drop_item = None;
            k = k + 1;
        }
    }
}

/// The last of the first `n` entities that takes off the live item `i`.
pub open spec fn last_remover(rs: Seq<EntityRecord>, i: int, n: int) -> Option<int>
    decreases n,
{
    if n <= 0 {
        None
    } else if rs[n - 1].wants_to_remove_item is Some && rs[n - 1].wants_to_remove_item.unwrap().item
        == i && rs[i].alive {
        Some(n - 1)
    } else {
        last_remover(rs, i, n - 1)
    }
}

/// An entity once the remove intents of the first `n` entities are carried
/// out: a taken-off item goes back into the remover's backpack.
pub open spec fn removed(rs: Seq<EntityRecord>, e: int, n: int) -> EntityRecord {
    match last_remover(rs, e, n) {
        Some(k) => EntityRecord {
            equipped: None,
            in_backpack: Some(InBackpack { owner: k as usize }),
            ..rs[e]
        },
        None => rs[e],
    }
}

pub open spec fn after_remove(rs: Seq<EntityRecord>, e: int) -> EntityRecord {
    EntityRecord { wants_to_remove_item: None, ..removed(rs, e, rs.len() as int) }
}

/// The lines that the take-offs of the first `n` entities add, newest first.
pub open spec fn remove_texts(rs: Seq<EntityRecord>, n: int) -> Seq<Seq<char>>
    decreases n,
{
    if n <= 0 {
        seq![]
    } else {
        let prev = remove_texts(rs, n - 1);
        match rs[n - 1].wants_to_remove_item {
            Some(w) => if w.item < rs.len() && rs[w.item as int].alive {
                seq![about("You unequip the "@, rs[w.item as int].name, "."@)] + prev
            } else {
                prev
            },
            None => prev,
        }
    }
}

/// What the take-off pass does to the world.
pub open spec fn remove_pass(w0: World, w1: World) -> bool {
    &&& w1.entities@.len() == w0.entities@.len()
    &&& forall|e: int| 0 <= e < w0.entities@.len() ==> #[trigger] w1.entities@[e] == after_remove(w0.entities@, e)
    &&& w1.log.view_texts() == remove_texts( w0.entities@, w0.entities@.len() as int, ) + w0.log.view_texts()
    &&& w1.map == w0.map
    &&& w1.run_state == w0.run_state
    &&& w1.player_entity == w0.player_entity
    &&& w1.player_pos == w0.player_pos
}

/// Carries out the intents to take off worn items.
pub struct ItemRemoveSystem {}

impl ItemRemoveSystem {
    /// Each remove intent on a live item takes it off and puts it in the
    /// remover's backpack; every remove intent is then cleared.
    pub fn run(&mut self, ecs: &mut World)
        ensures
            remove_pass(*old(ecs), *final(ecs)),
    {
        let ghost r0 = ecs.entities@;
        let ghost l0 = ecs.log.view_texts();
        let n = ecs.entities.len();
        let mut e: usize = 0;
        while e < n
            invariant
                e <= n,
                n == r0.len(),
                r0 == old(ecs).entities@,
                l0 == old(ecs).log.view_texts(),
                ecs.entities@.len() == n,
                forall|k: int| 0 <= k < n ==> #[trigger] ecs.entities@[k] == removed(r0, k, e as int),
                ecs.log.view_texts() == remove_texts(r0, e as int) + l0,
                ecs.map == old(ecs).map,
                ecs.run_state == old(ecs).run_state,
                ecs.player_entity == old(ecs).player_entity,
                ecs.player_pos == old(ecs).player_pos,
            decreases n - e,
        {
            proof {
                assert(ecs.entities@[e as int].wants_to_remove_item == r0[e as int].wants_to_remove_item);
            }
            if let Some(intent) = ecs.entities[e].wants_to_remove_item {
                let item = intent.item;
                if item < n {
                    proof {
                        assert(ecs.entities@[item as int].alive == r0[item as int].alive);
                    }
                    if ecs.entities[item].alive {
                        ecs.entities[item].equipped = None;
                        ecs.entities[item].in_backpack = Some(InBackpack { owner: e });
                        proof {
                            assert(ecs.entities@[item as int].name == r0[item as int].name);
                        }
                        let msg = line_about("You unequip the ", &ecs.entities[item].name, ".");
                        ecs.log.push_front(msg);
                        proof {
                            assert(ecs.log.view_texts() =~= remove_texts(r0, e + 1) + l0);
                        }
                    }
                }
            }
            e = e + 1;
        }
        let ghost r1 = ecs.entities@;
        let mut k: usize = 0;
        while k < n
            invariant
                k <= n,
                n == r0.len(),
                ecs.entities@.len() == n,
                forall|j: int|
                    0 <= j < n ==> #[trigger] ecs.entities@[j] == if j < k {
                        after_remove(r0, j)
                    } else {
                        r1[j]
                    },
                forall|j: int| 0 <= j < n ==> #[trigger] r1[j] == removed(r0, j, n as int),
                ecs.log.view_texts() == remove_texts(r0, n as int) + l0,
                ecs.map == old(ecs).map,
                ecs.run_state == old(ecs).run_state,
                ecs.player_entity == old(ecs).player_entity,
                ecs.player_pos == old(ecs).player_pos,
            decreases n - k,
        {
            ecs.entities[k].wants_to_remove_item = None;
            k = k + 1;
        }
    }
}

/// No entity of the store holds a melee or a pickup intent.
pub open spec fn no_melee_or_pickup(rs: Seq<EntityRecord>) -> bool {
    forall|e: int|
        0 <= e < rs.len() ==> (#[trigger] rs[e]).wants_to_melee is None
            && rs[e].wants_to_pickup_item is None
}

proof fn lemma_after_use_keeps_cleared(rs: Seq<EntityRecord>, user: int, item: int, target: Option<Point>)
    requires
        0 <= user < rs.len(),
        0 <= item < rs.len(),
        user != item,
        no_melee_or_pickup(rs),
    ensures
        no_melee_or_pickup(after_use(rs, user, item, target)),
{
    let a = equip_phase(rs, user, item);
    let b = heal_phase(a, user, item);
    let c = strike_phase(b, item, target);
    let d = confuse_phase(c, item, target);
    assert(no_melee_or_pickup(a));
    assert(no_melee_or_pickup(b));
    assert(no_melee_or_pickup(c));
    assert(no_melee_or_pickup(d));
}

proof fn lemma_use_fold_keeps_cleared(rs: Seq<EntityRecord>, n: int)
    requires
        0 <= n <= rs.len(),
        no_melee_or_pickup(rs),
    ensures
        no_melee_or_pickup(use_fold(rs, n)),
    decreases n,
{
    if n > 0 {
        lemma_use_fold_keeps_cleared(rs, n - 1);
        lemma_use_fold_len(rs, n - 1);
        let c = use_fold(rs, n - 1);
        let k = n - 1;
        if let Some(w) = c[k].wants_to_use_item {
            if w.item < c.len() && w.item != k && c[w.item as int].alive {
                lemma_after_use_keeps_cleared(c, k, w.item as int, w.target);
            }
        }
    }
}

/// After the item passes that follow pickup, no melee or pickup intent that
/// was cleared comes back, and every use, drop and take-off intent is gone.
pub proof fn law_item_passes_leave_no_intents(d: World, e: World, f: World, g: World)
    requires
        no_melee_or_pickup(d.entities@),
        use_pass(d, e),
        drop_pass(e, f),
        remove_pass(f, g),
    ensures
        g.entities@.len() == d.entities@.len(),
        no_melee_or_pickup(g.entities@),
        forall|k: int|
            0 <= k < g.entities@.len() ==> (#[trigger] g.entities@[k]).wants_to_use_item is None
                && g.entities@[k].wants_to_drop_item is None && g.entities@[k].wants_to_remove_item
                is None,
{
    lemma_use_fold_keeps_cleared(d.entities@, d.entities@.len() as int);
    lemma_use_fold_len(d.entities@, d.entities@.len() as int);
    let u = use_fold(d.entities@, d.entities@.len() as int);
    assert(e.entities@.len() == u.len());
    assert forall|k: int| 0 <= k < g.entities@.len() implies (#[trigger] g.entities@[k]).wants_to_use_item
        is None && g.entities@[k].wants_to_drop_item is None && g.entities@[k].wants_to_remove_item
        is None && g.entities@[k].wants_to_melee is None && g.entities@[k].wants_to_pickup_item
        is None by {
        assert(e.entities@[k] == clear_use_intents(u)[k]);
        assert(f.entities@[k] == after_drop(e.entities@, k));
        assert(g.entities@[k] == after_remove(f.entities@, k));
    }
}

} // verus!
