//! The counter attack: a high-priority strike that consumes the click that
//! triggers it, restores soul power, and hits every marked target directly
//! (bypassing geometry) besides everything in a wide circle.

use vstd::prelude::*;
use crate::attack::{AttackArea, AttackDamage, GroupAttack, GroupAttackView, views_of};
use crate::entity::{Unit, World, first_controlling};
use crate::soul::SoulPower;

verus! {

/// Radius of the counter strike (milli-units).
pub const COUNTER_ATTACK_RADIUS: i64 = 350_000;

/// Soul power restored by a triggered counter attack.
pub const COUNTER_ATTACK_SOUL: u32 = 50;

/// Damage of the counter strike.
pub const COUNTER_ATTACK_DAMAGE: u32 = 50;

/// The identifiers of every entity marked as a counter-attack target, in
/// arena order: they are pre-seeded into the strike's target list.
pub open spec fn counter_targets(units: Seq<Unit>) -> Seq<u64>
    decreases units.len(),
{
    if units.len() == 0 {
        Seq::<u64>::empty()
    } else {
        let rest = counter_targets(units.drop_last());
        if units.last().counter_attack_target {
            rest.push(units.last().id)
        } else {
            rest
        }
    }
}

/// The pool after restoring `x` points, saturating at the limit.
pub open spec fn spec_obtained(s: SoulPower, x: u32) -> SoulPower {
    if s.now + x <= s.max {
        SoulPower { now: (s.now + x) as u32, max: s.max }
    } else {
        SoulPower { now: s.max, max: s.max }
    }
}

/// The counter-attack stage: if the controlled entity is in its counter
/// stance and the attack click arrives, the stance is left, soul power is
/// restored, and one circular strike pre-seeded with every marked target is
/// emitted. Returns the arena, the emitted attacks, and whether the click
/// was consumed.
pub open spec fn counter_stage(units: Seq<Unit>, left: bool) -> (
    Seq<Unit>,
    Seq<GroupAttackView>,
    bool,
) {
    match first_controlling(units) {
        None => (units, Seq::<GroupAttackView>::empty(), false),
        Some(i) => {
            let u = units[i];
            if left && u.counter_attack && u.soul is Some {
                let u2 = Unit {
                    soul: Some(spec_obtained(u.soul->Some_0, COUNTER_ATTACK_SOUL)),
                    counter_attack: false,
                    ..u
                };
                let g = GroupAttackView {
                    area: AttackArea::Circle { o: u.position.0, r: COUNTER_ATTACK_RADIUS },
                    entities: counter_targets(units),
                    damage: AttackDamage::Physical { damage: COUNTER_ATTACK_DAMAGE, power: 2 },
                    from: Some(u.id),
                };
                (units.update(i, u2), seq![g], true)
            } else {
                (units, Seq::<GroupAttackView>::empty(), false)
            }
        },
    }
}

/// Trigger the counter attack; returns whether the click was consumed.
pub fn trigger_counter_attack(w: &mut World, attacks: &mut Vec<GroupAttack>, left: bool) -> (
    consumed: bool
)
    requires
        old(w).wf(),
    ensures
        final(w).units@ == counter_stage(old(w).units@, left).0,
        final(w).next_id == old(w).next_id,
        views_of(final(attacks)@) == views_of(old(attacks)@) + counter_stage(
            old(w).units@,
            left,
        ).1,
        consumed == counter_stage(old(w).units@, left).2,
        final(w).wf(),
{
    let ghost stage = counter_stage(old(w).units@, left);
    let idx = w.find_controlling();
    let mut consumed = false;
    match idx {
        None => {},
        Some(i) => {
            let u = w.units[i];
            if left && u.counter_attack && u.soul.is_some() {
                let mut soul = match u.soul {
                    Some(s) => s,
                    None => SoulPower { now: 0, max: 0 },
                };
                let targets = collect_counter_targets(w);
                soul = SoulPower {
                    now: if COUNTER_ATTACK_SOUL <= soul.max - soul.now {
                        soul.now + COUNTER_ATTACK_SOUL
                    } else {
                        soul.max
                    },
                    max: soul.max,
                };
                let u2 = Unit { soul: Some(soul), counter_attack: false, ..u };
                w.units.set(i, u2);
                attacks.push(
                    GroupAttack {
                        area: AttackArea::Circle { o: u.position.0, r: COUNTER_ATTACK_RADIUS },
                        entities: targets,
                        damage: AttackDamage::Physical { damage: COUNTER_ATTACK_DAMAGE, power: 2 },
                        from: Some(u.id),
                    },
                );
                consumed = true;
            }
        },
    }
    proof {
        assert(w.units@ =~= stage.0);
        assert(views_of(attacks@) =~= views_of(old(attacks)@) + stage.1);
    }
    consumed
}

/// Collect the identifiers of all marked counter-attack targets.
fn collect_counter_targets(w: &World) -> (r: Vec<u64>)
    ensures
        r@ == counter_targets(w.units@),
{
    let n = w.units.len();
    let mut acc: Vec<u64> = Vec::new();
    let mut i: usize = 0;
    while i < n
        invariant
            i <= n,
            n == w.units@.len(),
            acc@ == counter_targets(w.units@.take(i as int)),
        decreases n - i,
    {
        if w.units[i].counter_attack_target {
            acc.push(w.units[i].id);
        }
        proof {
            assert(w.units@.take(i + 1 as int).drop_last() =~= w.units@.take(i as int));
            assert(w.units@.take(i + 1 as int).last() == w.units@[i as int]);
        }
        i = i + 1;
    }
    proof {
        assert(w.units@.take(n as int) =~= w.units@);
    }
    acc
}

/// The counter stage emits at most one attack, and a well-formed one.
pub proof fn lemma_counter_attacks_wf(units: Seq<Unit>, left: bool)
    requires
        forall|i: int| 0 <= i < units.len() ==> (#[trigger] units[i]).wf(),
    ensures
        counter_stage(units, left).1.len() <= 1,
        forall|k: int|
            0 <= k < counter_stage(units, left).1.len() ==> (#[trigger] counter_stage(
                units,
                left,
            ).1[k]).wf(),
        counter_stage(units, left).0.len() == units.len(),
{
    crate::entity::lemma_first_controlling(units);
}

} // verus!
