//! The per-tick pipeline. Correctness of the combat core depends on the
//! total order of its stages, fixed here once: cooldowns expire, velocity
//! and position update, the special attacks trigger, the combo machine
//! performs and triggers, projectiles collide, pending area attacks flatten
//! to per-entity hits, damage lands, the health lock clamps, death is
//! evaluated and the dead are removed. All attack queues are drained within
//! the tick that filled them.

use vstd::prelude::*;
use crate::attack::{
    GroupAttack, GroupAttackView, SingleAttack, views_of, flatten_singles, effect_units,
    apply_singles, flat_group_damage, recieve_damage,
};
use crate::cooldown::{cooldown_stage, update_cool_downs, lemma_cooldown_stage_len};
use crate::counter_attack::{counter_stage, trigger_counter_attack, lemma_counter_attacks_wf};
use crate::entity::{Unit, World};
use crate::geom::{Vec2i, is_unit_dir, DELTA_LIMIT};
use crate::health::{
    clamp_stage, mark_stage, sweep_stage, clamp_locked_health, mark_dead_entities,
    remove_dead_entities,
};
use crate::movement::{
    MoveKeys, velocity_stage, position_stage, update_controlling_velocity, update_position,
};
use crate::projectile::{
    bullet_survivors, bullet_attacks, bullet_collision, lemma_bullet_attacks_len,
    lemma_bullet_attacks_wf,
};
use crate::shield::{
    combo_trigger_stage, combo_perform_stage, assault_trigger_stage, assault_click_stage,
    assault_perform_stage, trigger_shield_common_attack, perform_shield_common_attack,
    trigger_shield_assault, trigger_shield_assault_attack, perform_shield_assault_attack,
    lemma_combo_perform_attacks_wf, lemma_assault_perform_attacks_wf, lemma_shield_stage_lens,
};

verus! {

/// The pipeline's stages, in the order `tick` runs them. The order is a
/// correctness contract, not a tuning knob: damage must flatten after every
/// attack of the tick is emitted, the lock clamp must run between damage
/// and the death check, and the dead are removed last.
#[derive(Clone, Copy, Debug, PartialEq, Eq, Structural)]
pub enum GameSystemStage {
    /// Timed tags expire (`update_cool_downs`).
    CoolDown,
    /// Directional input becomes velocity (`update_controlling_velocity`).
    UpdateVelocity,
    /// Velocity integrates into position (`update_position`).
    UpdatePosition,
    /// High-priority triggers: the counter attack (which consumes the
    /// click), the running assault, the assault start and its sub-states.
    SpecialAttack,
    /// The combo machine performs finished animations and triggers new
    /// attacks (`perform_shield_common_attack`, `trigger_shield_common_attack`).
    NormalAttack,
    /// Projectile contacts release their payloads (`bullet_collision`).
    CreateDamage,
    /// Pending area attacks flatten to per-entity hits (`flat_group_damage`).
    ProcessDamage,
    /// Resolved hits land on their targets (`recieve_damage`).
    RecieveDamage,
    /// Locked health pools are raised back to 1 (`clamp_locked_health`).
    PostDamage,
    /// Drained entities are marked dead (`mark_dead_entities`).
    CheckDead,
    /// Dead entities are despawned (`remove_dead_entities`).
    ClearDead,
}

/// Everything the outside hands the simulation for one tick: the elapsed
/// time, the freshly pressed mouse buttons and assault key, the held
/// movement keys, and the aim direction.
#[derive(Clone, Copy, Debug, PartialEq, Eq, Structural)]
pub struct TickInput {
    /// Elapsed milliseconds, at most `DELTA_LIMIT`.
    pub delta_ms: u32,
    pub left_click: bool,
    pub right_click: bool,
    pub assault_key: bool,
    pub keys: MoveKeys,
    /// Fixed-point unit aim direction (see `geom::is_unit_dir`).
    pub aim: Vec2i,
}

impl TickInput {
    pub open spec fn wf(self) -> bool {
        &&& self.delta_ms <= DELTA_LIMIT
        &&& is_unit_dir(self.aim)
    }
}

/// The whole tick as one function of the arena: the stages of
/// `GameSystemStage`, composed in order. Returns the new arena and the next
/// fresh identifier.
pub open spec fn tick_spec(units: Seq<Unit>, next_id: u64, input: TickInput) -> (Seq<Unit>, int) {
    let d = input.delta_ms;
    let s1 = cooldown_stage(units, d);
    let s2 = velocity_stage(s1, input.keys);
    let s3 = position_stage(s2, d);
    let c = counter_stage(s3, input.left_click);
    let left = input.left_click && !c.2;
    let ap = assault_perform_stage(c.0, d, input.aim);
    let s6 = assault_trigger_stage(ap.0, input.assault_key, input.aim);
    let s7 = assault_click_stage(s6, left, input.right_click);
    let cp = combo_perform_stage(s7, next_id, d, input.aim);
    let ct = combo_trigger_stage(cp.0, left, input.right_click);
    let survivors = bullet_survivors(ct, ct);
    let gs = c.1 + ap.1 + cp.2 + bullet_attacks(ct, ct);
    let flattened = survivors + effect_units(gs, cp.1);
    let singles = flatten_singles(survivors, gs);
    let s11 = apply_singles(flattened, singles);
    let s12 = clamp_stage(s11);
    let s13 = mark_stage(s12);
    let s14 = sweep_stage(s13);
    (s14, cp.1 + gs.len())
}

/// Advance the world by one tick. The identifier headroom in the
/// precondition covers everything one tick can spawn: one projectile,
/// and one visual effect per emitted attack (at most three from the
/// trigger stages plus one per projectile).
#[verifier::rlimit(100)]
pub fn tick(w: &mut World, input: TickInput)
    requires
        old(w).wf(),
        input.wf(),
        old(w).next_id as int + old(w).units@.len() + 8 <= u64::MAX as int,
    ensures
        final(w).units@ == tick_spec(old(w).units@, old(w).next_id, input).0,
        final(w).next_id as int == tick_spec(old(w).units@, old(w).next_id, input).1,
        final(w).wf(),
{
    let ghost units0 = w.units@;
    let ghost nid0 = w.next_id;
    let d = input.delta_ms;
    proof {
        lemma_cooldown_stage_len(units0, d);
    }
    update_cool_downs(w, d);
    update_controlling_velocity(w, input.keys);
    update_position(w, d);
    let ghost s3 = w.units@;
    let mut attacks: Vec<GroupAttack> = Vec::new();
    proof {
        lemma_counter_attacks_wf(s3, input.left_click);
    }
    let consumed = trigger_counter_attack(w, &mut attacks, input.left_click);
    let left = input.left_click && !consumed;
    let ghost c = counter_stage(s3, input.left_click);
    proof {
        lemma_assault_perform_attacks_wf(w.units@, d, input.aim);
    }
    perform_shield_assault_attack(w, &mut attacks, d, input.aim);
    trigger_shield_assault(w, input.assault_key, input.aim);
    trigger_shield_assault_attack(w, left, input.right_click);
    let ghost s7 = w.units@;
    proof {
        lemma_combo_perform_attacks_wf(s7, w.next_id, d, input.aim);
    }
    perform_shield_common_attack(w, &mut attacks, d, input.aim);
    trigger_shield_common_attack(w, left, input.right_click);
    let ghost ct = w.units@;
    proof {
        lemma_bullet_attacks_len(ct, ct);
        lemma_bullet_attacks_wf(ct, ct);
    }
    bullet_collision(w, &mut attacks);
    let ghost gs = views_of(attacks@);
    proof {
        let cp = combo_perform_stage(s7, nid0, d, input.aim);
        assert(gs =~= c.1 + assault_perform_stage(c.0, d, input.aim).1 + cp.2 + bullet_attacks(
            ct,
            ct,
        ));
        assert forall|k: int| 0 <= k < attacks@.len() implies (#[trigger] attacks@[k]@).wf() by {
            assert(attacks@[k]@ == gs[k]);
            let n1 = c.1.len() as int;
            let n2 = n1 + assault_perform_stage(c.0, d, input.aim).1.len();
            let n3 = n2 + cp.2.len();
            if k < n1 {
                assert(gs[k] == c.1[k]);
            } else if k < n2 {
                assert(gs[k] == assault_perform_stage(c.0, d, input.aim).1[k - n1]);
            } else if k < n3 {
                assert(gs[k] == cp.2[k - n2]);
            } else {
                assert(gs[k] == bullet_attacks(ct, ct)[k - n3]);
            }
        }
    }
    proof {
        let s1 = cooldown_stage(units0, d);
        let s2 = velocity_stage(s1, input.keys);
        let ap0 = assault_perform_stage(c.0, d, input.aim).0;
        let cp = combo_perform_stage(s7, nid0, d, input.aim);
        lemma_shield_stage_lens(ap0, input.assault_key, left, input.right_click, input.aim);
        lemma_shield_stage_lens(
            assault_trigger_stage(ap0, input.assault_key, input.aim),
            input.assault_key,
            left,
            input.right_click,
            input.aim,
        );
        lemma_shield_stage_lens(cp.0, input.assault_key, left, input.right_click, input.aim);
        assert(s1.len() <= units0.len());
        assert(s2.len() == s1.len());
        assert(s3.len() == s2.len());
        assert(c.0.len() == s3.len());
        assert(ap0.len() == c.0.len());
        assert(s7.len() == ap0.len());
        assert(ct.len() == cp.0.len());
        assert(cp.0.len() <= s7.len() + 1);
        assert(attacks@.len() == gs.len());
        assert(gs.len() <= 3 + ct.len());
        assert(w.next_id as int <= nid0 as int + 1);
        assert(w.next_id as int + attacks@.len() <= u64::MAX as int);
    }
    let mut singles: Vec<SingleAttack> = Vec::new();
    flat_group_damage(w, attacks, &mut singles);
    recieve_damage(w, singles);
    clamp_locked_health(w);
    mark_dead_entities(w);
    remove_dead_entities(w);
    proof {
        assert(w.units@ == tick_spec(units0, nid0, input).0);
        assert(w.next_id as int == tick_spec(units0, nid0, input).1);
    }
}

} // verus!
