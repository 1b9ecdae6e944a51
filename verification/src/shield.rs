//! The shield combo state machine: attack chaining with timing windows and
//! soul-power costs, the assault dash, and the emission of area attacks and
//! projectiles when an attack's animation completes.

use vstd::prelude::*;
use crate::attack::{AttackArea, AttackDamage, GroupAttack, GroupAttackView, views_of};
use crate::entity::{
    PlayerState, ShieldAttackType, ShieldAttackPrefix, BulletProps, Unit, World,
    first_controlling, lemma_first_controlling,
};
use crate::geom::{Vec2i, Velocity, CollideRadius, lemma_unit_dir_bounds, is_unit_dir, vec_ok};
use crate::soul::SoulPower;

verus! {

/// Soul-power cost of triggering the first ranged attack.
pub const SOUL_COST_B: u32 = 20;

/// Soul-power cost of the heavy melee follow-up.
pub const SOUL_COST_AB: u32 = 30;

/// Soul-power cost of the second ranged attack of the chain.
pub const SOUL_COST_BB: u32 = 20;

/// Soul-power cost of the final ranged attack of the chain.
pub const SOUL_COST_BBB: u32 = 30;

/// Melee half-circle radius (milli-units).
pub const SHIELD_MELEE_RADIUS: i64 = 150_000;

/// Heavy melee rectangle, width and height (milli-units).
pub const SHIELD_AB_WIDTH: i64 = 250_000;
pub const SHIELD_AB_HEIGHT: i64 = 110_000;

/// Assault sweep rectangle, width and height (milli-units).
pub const ASSAULT_B_WIDTH: i64 = 500_000;
pub const ASSAULT_B_HEIGHT: i64 = 150_000;

/// Travel hitbox radius of a shield bullet (milli-units).
pub const BULLET_RADIUS: i64 = 30_000;

/// Bullet speed as a multiple of the fixed-point aim direction:
/// `aim * 6` is 600 milli-units per millisecond, i.e. 600 units per second.
pub const BULLET_SPEED_FACTOR: i64 = 6;

/// Assault dash speed as a multiple of the aim direction (800 units/s).
pub const ASSAULT_SPEED_FACTOR: i64 = 8;

/// Cooldown and animation length of the quick attacks (ms).
pub const SHIELD_CD_SHORT: u32 = 200;
pub const SHIELD_ANIM_SHORT: u32 = 200;

/// Cooldown and animation of the heavy melee follow-up of the light chain.
pub const SHIELD_CD_AA: u32 = 1_400;
pub const SHIELD_ANIM_AA: u32 = 400;
pub const SHIELD_CD_AB: u32 = 1_100;
pub const SHIELD_ANIM_AB: u32 = 100;
pub const SHIELD_CD_BBB: u32 = 1_400;
pub const SHIELD_ANIM_BBB: u32 = 400;

/// Combo-continuation windows opened by the chain openers (ms).
pub const PREFIX_A_WINDOW: u32 = 1_500;
pub const PREFIX_B_WINDOW: u32 = 1_000;
pub const PREFIX_BB_WINDOW: u32 = 1_000;

/// Assault duration and the cooldown before the next assault (ms).
pub const ASSAULT_TIME: u32 = 500;
pub const ASSAULT_CD: u32 = 1_500;

/// The pool can pay `c` points.
pub open spec fn can_cost(soul: Option<SoulPower>, c: u32) -> bool {
    match soul {
        Some(s) => s.now >= c,
        None => false,
    }
}

/// The pool after paying `c` points (only meaningful when it can pay).
pub open spec fn spec_spent(soul: Option<SoulPower>, c: u32) -> Option<SoulPower> {
    match soul {
        Some(s) => Some(SoulPower { now: (s.now - c) as u32, max: s.max }),
        None => None,
    }
}

/// Which attack a pair of clicks triggers, given the open prefix window and
/// the available soul power. A costed choice is only made when the pool can
/// pay; otherwise the click falls through to nothing (the transition
/// silently fails, nothing is deducted).
pub open spec fn spec_combo_choice(
    prefix: Option<ShieldAttackPrefix>,
    soul: Option<SoulPower>,
    left: bool,
    right: bool,
) -> Option<ShieldAttackType> {
    match prefix {
        None => if left {
            Some(ShieldAttackType::A)
        } else if right && can_cost(soul, SOUL_COST_B) {
            Some(ShieldAttackType::B)
        } else {
            None
        },
        Some(p) => match p.kind {
            ShieldAttackType::A => if left {
                Some(ShieldAttackType::AA)
            } else if right && can_cost(soul, SOUL_COST_AB) {
                Some(ShieldAttackType::AB)
            } else {
                None
            },
            ShieldAttackType::B => if left {
                Some(ShieldAttackType::A)
            } else if right && can_cost(soul, SOUL_COST_BB) {
                Some(ShieldAttackType::BB)
            } else {
                None
            },
            ShieldAttackType::BB => if left {
                Some(ShieldAttackType::A)
            } else if right && can_cost(soul, SOUL_COST_BBB) {
                Some(ShieldAttackType::BBB)
            } else {
                None
            },
            _ => None,
        },
    }
}

/// Soul cost of each triggered attack.
pub open spec fn spec_cost_of(t: ShieldAttackType) -> u32 {
    match t {
        ShieldAttackType::A => 0u32,
        ShieldAttackType::AA => 0u32,
        ShieldAttackType::AB => SOUL_COST_AB,
        ShieldAttackType::B => SOUL_COST_B,
        ShieldAttackType::BB => SOUL_COST_BB,
        ShieldAttackType::BBB => SOUL_COST_BBB,
    }
}

/// Machine state entered by each triggered attack.
pub open spec fn spec_state_of(t: ShieldAttackType) -> PlayerState {
    match t {
        ShieldAttackType::A => PlayerState::ShieldAttackA,
        ShieldAttackType::AA => PlayerState::ShieldAttackAA,
        ShieldAttackType::AB => PlayerState::ShieldAttackAB,
        ShieldAttackType::B => PlayerState::ShieldAttackB,
        ShieldAttackType::BB => PlayerState::ShieldAttackBB,
        ShieldAttackType::BBB => PlayerState::ShieldAttackBBB,
    }
}

/// Attack cooldown started by each triggered attack (ms).
pub open spec fn spec_cd_of(t: ShieldAttackType) -> u32 {
    match t {
        ShieldAttackType::A => SHIELD_CD_SHORT,
        ShieldAttackType::AA => SHIELD_CD_AA,
        ShieldAttackType::AB => SHIELD_CD_AB,
        ShieldAttackType::B => SHIELD_CD_SHORT,
        ShieldAttackType::BB => SHIELD_CD_SHORT,
        ShieldAttackType::BBB => SHIELD_CD_BBB,
    }
}

/// Animation length of each triggered attack (ms).
pub open spec fn spec_anim_of(t: ShieldAttackType) -> u32 {
    match t {
        ShieldAttackType::A => SHIELD_ANIM_SHORT,
        ShieldAttackType::AA => SHIELD_ANIM_AA,
        ShieldAttackType::AB => SHIELD_ANIM_AB,
        ShieldAttackType::B => SHIELD_ANIM_SHORT,
        ShieldAttackType::BB => SHIELD_ANIM_SHORT,
        ShieldAttackType::BBB => SHIELD_ANIM_BBB,
    }
}

/// Prefix window opened (or cleared) by each triggered attack.
pub open spec fn spec_prefix_of(t: ShieldAttackType) -> Option<ShieldAttackPrefix> {
    match t {
        ShieldAttackType::A => Some(
            ShieldAttackPrefix { kind: ShieldAttackType::A, remaining: PREFIX_A_WINDOW },
        ),
        ShieldAttackType::B => Some(
            ShieldAttackPrefix { kind: ShieldAttackType::B, remaining: PREFIX_B_WINDOW },
        ),
        ShieldAttackType::BB => Some(
            ShieldAttackPrefix { kind: ShieldAttackType::BB, remaining: PREFIX_BB_WINDOW },
        ),
        _ => None,
    }
}

/// The trigger step of one entity: from the rest state, outside the attack
/// cooldown, a click (combined with the open prefix window) picks the next
/// attack; the cost is deducted at this very moment, the machine state,
/// cooldown, animation and prefix window are set. Anything else leaves the
/// entity untouched.
pub open spec fn spec_shield_trigger(u: Unit, left: bool, right: bool) -> Unit {
    if u.controlling && u.state == Some(PlayerState::Stand) && u.attack_cool_down is None {
        match spec_combo_choice(u.prefix, u.soul, left, right) {
            None => u,
            Some(t) => Unit {
                state: Some(spec_state_of(t)),
                soul: spec_spent(u.soul, spec_cost_of(t)),
                attack_cool_down: Some(spec_cd_of(t)),
                animation: Some(spec_anim_of(t)),
                prefix: spec_prefix_of(t),
                ..u
            },
        }
    } else {
        u
    }
}

/// The whole trigger stage: the first controlled entity takes its trigger
/// step; without one the stage does nothing.
pub open spec fn combo_trigger_stage(units: Seq<Unit>, left: bool, right: bool) -> Seq<Unit> {
    match first_controlling(units) {
        None => units,
        Some(i) => units.update(i, spec_shield_trigger(units[i], left, right)),
    }
}

/// The trigger step changes no component the arena's well-formedness
/// depends on except the soul pool, which only shrinks within bounds.
pub proof fn lemma_shield_trigger_wf(u: Unit, left: bool, right: bool)
    ensures
        spec_shield_trigger(u, left, right).id == u.id,
        u.wf() ==> spec_shield_trigger(u, left, right).wf(),
{
}

/// What completing an attack animation releases: an area attack, a
/// projectile carrying a payload, or (for states that have no attack of
/// their own, a recoverable inconsistency) nothing.
pub enum ShieldEmission {
    Melee(AttackArea, AttackDamage),
    Bullet(AttackDamage),
    Nothing,
}

/// The attack or projectile each machine state releases when its animation
/// completes, aimed along `aim` from `pos`.
pub open spec fn spec_shield_emission(state: PlayerState, pos: Vec2i, aim: Vec2i) -> ShieldEmission {
    match state {
        PlayerState::ShieldAttackA => ShieldEmission::Melee(
            AttackArea::HalfCircle { o: pos, r: SHIELD_MELEE_RADIUS, v: aim },
            AttackDamage::Physical { damage: 30, power: 2 },
        ),
        PlayerState::ShieldAttackAA => ShieldEmission::Melee(
            AttackArea::HalfCircle { o: pos, r: SHIELD_MELEE_RADIUS, v: aim },
            AttackDamage::Physical { damage: 40, power: 2 },
        ),
        PlayerState::ShieldAttackAB => ShieldEmission::Melee(
            AttackArea::Rectangle { o: pos, w: SHIELD_AB_WIDTH, h: SHIELD_AB_HEIGHT, v: aim },
            AttackDamage::Physical { damage: 40, power: 2 },
        ),
        PlayerState::ShieldAttackB => ShieldEmission::Bullet(
            AttackDamage::Physical { damage: 20, power: 1 },
        ),
        PlayerState::ShieldAttackBB => ShieldEmission::Bullet(
            AttackDamage::Physical { damage: 20, power: 1 },
        ),
        PlayerState::ShieldAttackBBB => ShieldEmission::Bullet(
            AttackDamage::Physical { damage: 35, power: 2 },
        ),
        _ => ShieldEmission::Nothing,
    }
}

/// A freshly spawned shield bullet: the travel hitbox, the aim-aligned
/// velocity, the owner and the payload its impact releases.
pub open spec fn spec_bullet_unit(
    id: u64,
    pos: Vec2i,
    aim: Vec2i,
    owner: u64,
    damage: AttackDamage,
) -> Unit {
    Unit {
        radius: Some(CollideRadius(BULLET_RADIUS)),
        velocity: Velocity(
            Vec2i {
                x: (aim.x * BULLET_SPEED_FACTOR) as i64,
                y: (aim.y * BULLET_SPEED_FACTOR) as i64,
            },
        ),
        bullet: Some(BulletProps { owner: Some(owner), damage: Some(damage) }),
        ..Unit::spec_blank(id, pos)
    }
}

/// The perform step: the running attack animation advances by `delta`; on
/// completion the machine emits its state's attack or spawns its projectile
/// and falls back to the rest state. Returns the arena, the next fresh
/// identifier, and the emitted attacks.
pub open spec fn combo_perform_stage(units: Seq<Unit>, next_id: u64, delta: u32, aim: Vec2i) -> (
    Seq<Unit>,
    int,
    Seq<GroupAttackView>,
) {
    match first_controlling(units) {
        None => (units, next_id as int, Seq::<GroupAttackView>::empty()),
        Some(i) => {
            let u = units[i];
            match (u.animation, u.state) {
                (Some(a), Some(st)) => if a > delta {
                    (
                        units.update(i, Unit { animation: Some((a - delta) as u32), ..u }),
                        next_id as int,
                        Seq::<GroupAttackView>::empty(),
                    )
                } else {
                    let u2 = Unit { animation: None, state: Some(PlayerState::Stand), ..u };
                    match spec_shield_emission(st, u.position.0, aim) {
                        ShieldEmission::Melee(area, damage) => (
                            units.update(i, u2),
                            next_id as int,
                            seq![
                                GroupAttackView {
                                    area,
                                    entities: Seq::<u64>::empty(),
                                    damage,
                                    from: Some(u.id),
                                },
                            ],
                        ),
                        ShieldEmission::Bullet(damage) => (
                            units.update(i, u2).push(
                                spec_bullet_unit(next_id, u.position.0, aim, u.id, damage),
                            ),
                            next_id as int + 1,
                            Seq::<GroupAttackView>::empty(),
                        ),
                        ShieldEmission::Nothing => (
                            units.update(i, u2),
                            next_id as int,
                            Seq::<GroupAttackView>::empty(),
                        ),
                    }
                },
                _ => (units, next_id as int, Seq::<GroupAttackView>::empty()),
            }
        },
    }
}

/// Advance the controlled entity's attack animation; on completion emit the
/// state's area attack into `attacks` or spawn its projectile, and return
/// to the rest state.
pub fn perform_shield_common_attack(
    w: &mut World,
    attacks: &mut Vec<GroupAttack>,
    delta: u32,
    aim: Vec2i,
)
    requires
        old(w).wf(),
        is_unit_dir(aim),
        old(w).next_id < u64::MAX,
    ensures
        final(w).units@ == combo_perform_stage(old(w).units@, old(w).next_id, delta, aim).0,
        final(w).next_id as int == combo_perform_stage(old(w).units@, old(w).next_id, delta, aim).1,
        views_of(final(attacks)@) == views_of(old(attacks)@) + combo_perform_stage(
            old(w).units@,
            old(w).next_id,
            delta,
            aim,
        ).2,
        final(w).wf(),
{
    proof {
        lemma_unit_dir_bounds(aim);
    }
    let idx = w.find_controlling();
    match idx {
        None => {
            proof {
                assert(views_of(attacks@) =~= views_of(attacks@) + Seq::<
                    GroupAttackView,
                >::empty());
            }
        },
        Some(i) => {
            let u = w.units[i];
            let ghost stage = combo_perform_stage(old(w).units@, old(w).next_id, delta, aim);
            match (u.animation, u.state) {
                (Some(a), Some(st)) => {
                    if a > delta {
                        w.units.set(i, Unit { animation: Some(a - delta), ..u });
                    } else {
                        let u2 = Unit { animation: None, state: Some(PlayerState::Stand), ..u };
                        w.units.set(i, u2);
                        match st {
                            PlayerState::ShieldAttackA => {
                                attacks.push(
                                    GroupAttack {
                                        area: AttackArea::HalfCircle {
                                            o: u.position.0,
                                            r: SHIELD_MELEE_RADIUS,
                                            v: aim,
                                        },
                                        entities: Vec::new(),
                                        damage: AttackDamage::Physical { damage: 30, power: 2 },
                                        from: Some(u.id),
                                    },
                                );
                            },
                            PlayerState::ShieldAttackAA => {
                                attacks.push(
                                    GroupAttack {
                                        area: AttackArea::HalfCircle {
                                            o: u.position.0,
                                            r: SHIELD_MELEE_RADIUS,
                                            v: aim,
                                        },
                                        entities: Vec::new(),
                                        damage: AttackDamage::Physical { damage: 40, power: 2 },
                                        from: Some(u.id),
                                    },
                                );
                            },
                            PlayerState::ShieldAttackAB => {
                                attacks.push(
                                    GroupAttack {
                                        area: AttackArea::Rectangle {
                                            o: u.position.0,
                                            w: SHIELD_AB_WIDTH,
                                            h: SHIELD_AB_HEIGHT,
                                            v: aim,
                                        },
                                        entities: Vec::new(),
                                        damage: AttackDamage::Physical { damage: 40, power: 2 },
                                        from: Some(u.id),
                                    },
                                );
                            },
                            PlayerState::ShieldAttackB => {
                                spawn_bullet(
                                    w,
                                    u.position.0,
                                    aim,
                                    u.id,
                                    AttackDamage::Physical { damage: 20, power: 1 },
                                );
                            },
                            PlayerState::ShieldAttackBB => {
                                spawn_bullet(
                                    w,
                                    u.position.0,
                                    aim,
                                    u.id,
                                    AttackDamage::Physical { damage: 20, power: 1 },
                                );
                            },
                            PlayerState::ShieldAttackBBB => {
                                spawn_bullet(
                                    w,
                                    u.position.0,
                                    aim,
                                    u.id,
                                    AttackDamage::Physical { damage: 35, power: 2 },
                                );
                            },
                            _ => {},
                        }
                    }
                },
                _ => {},
            }
            proof {
                assert(w.units@ =~= stage.0);
                assert(views_of(attacks@) =~= views_of(old(attacks)@) + stage.2);
            }
        },
    }
}

/// Spawn one shield bullet owned by `owner` at `pos`, flying along `aim`.
fn spawn_bullet(w: &mut World, pos: Vec2i, aim: Vec2i, owner: u64, damage: AttackDamage)
    requires
        old(w).wf(),
        old(w).next_id < u64::MAX,
        is_unit_dir(aim),
        vec_ok(pos),
    ensures
        final(w).units@ == old(w).units@.push(
            spec_bullet_unit(old(w).next_id, pos, aim, owner, damage),
        ),
        final(w).next_id == old(w).next_id + 1,
        final(w).wf(),
{
    proof {
        lemma_unit_dir_bounds(aim);
    }
    let id = w.next_id;
    let base = Unit::blank(id, pos);
    let b = Unit {
        radius: Some(CollideRadius(BULLET_RADIUS)),
        velocity: Velocity(Vec2i { x: aim.x * BULLET_SPEED_FACTOR, y: aim.y * BULLET_SPEED_FACTOR }),
        bullet: Some(BulletProps { owner: Some(owner), damage: Some(damage) }),
        ..base
    };
    w.push_unit(b);
}

fn exec_combo_choice(
    prefix: Option<ShieldAttackPrefix>,
    soul: Option<SoulPower>,
    left: bool,
    right: bool,
) -> (r: Option<ShieldAttackType>)
    ensures
        r == spec_combo_choice(prefix, soul, left, right),
{
    let now: u32 = match soul {
        Some(s) => s.now,
        None => 0,
    };
    let can_pay = soul.is_some();
    match prefix {
        None => if left {
            Some(ShieldAttackType::A)
        } else if right && can_pay && now >= SOUL_COST_B {
            Some(ShieldAttackType::B)
        } else {
            None
        },
        Some(p) => match p.kind {
            ShieldAttackType::A => if left {
                Some(ShieldAttackType::AA)
            } else if right && can_pay && now >= SOUL_COST_AB {
                Some(ShieldAttackType::AB)
            } else {
                None
            },
            ShieldAttackType::B => if left {
                Some(ShieldAttackType::A)
            } else if right && can_pay && now >= SOUL_COST_BB {
                Some(ShieldAttackType::BB)
            } else {
                None
            },
            ShieldAttackType::BB => if left {
                Some(ShieldAttackType::A)
            } else if right && can_pay && now >= SOUL_COST_BBB {
                Some(ShieldAttackType::BBB)
            } else {
                None
            },
            _ => None,
        },
    }
}

/// Trigger all kinds of common attacks of the shield pattern on the
/// controlled entity.
pub fn trigger_shield_common_attack(w: &mut World, left: bool, right: bool)
    requires
        old(w).wf(),
    ensures
        final(w).units@ == combo_trigger_stage(old(w).units@, left, right),
        final(w).next_id == old(w).next_id,
        final(w).wf(),
{
    let idx = w.find_controlling();
    match idx {
        None => {},
        Some(i) => {
            let u = w.units[i];
            let gate = u.controlling && u.attack_cool_down.is_none() && (match u.state {
                Some(PlayerState::Stand) => true,
                _ => false,
            });
            if gate {
                match exec_combo_choice(u.prefix, u.soul, left, right) {
                    None => {},
                    Some(t) => {
                        let (cost, state, cd, anim, pfx) = match t {
                            ShieldAttackType::A => (
                                0u32,
                                PlayerState::ShieldAttackA,
                                SHIELD_CD_SHORT,
                                SHIELD_ANIM_SHORT,
                                Some(
                                    ShieldAttackPrefix {
                                        kind: ShieldAttackType::A,
                                        remaining: PREFIX_A_WINDOW,
                                    },
                                ),
                            ),
                            ShieldAttackType::AA => (
                                0u32,
                                PlayerState::ShieldAttackAA,
                                SHIELD_CD_AA,
                                SHIELD_ANIM_AA,
                                None,
                            ),
                            ShieldAttackType::AB => (
                                SOUL_COST_AB,
                                PlayerState::ShieldAttackAB,
                                SHIELD_CD_AB,
                                SHIELD_ANIM_AB,
                                None,
                            ),
                            ShieldAttackType::B => (
                                SOUL_COST_B,
                                PlayerState::ShieldAttackB,
                                SHIELD_CD_SHORT,
                                SHIELD_ANIM_SHORT,
                                Some(
                                    ShieldAttackPrefix {
                                        kind: ShieldAttackType::B,
                                        remaining: PREFIX_B_WINDOW,
                                    },
                                ),
                            ),
                            ShieldAttackType::BB => (
                                SOUL_COST_BB,
                                PlayerState::ShieldAttackBB,
                                SHIELD_CD_SHORT,
                                SHIELD_ANIM_SHORT,
                                Some(
                                    ShieldAttackPrefix {
                                        kind: ShieldAttackType::BB,
                                        remaining: PREFIX_BB_WINDOW,
                                    },
                                ),
                            ),
                            ShieldAttackType::BBB => (
                                SOUL_COST_BBB,
                                PlayerState::ShieldAttackBBB,
                                SHIELD_CD_BBB,
                                SHIELD_ANIM_BBB,
                                None,
                            ),
                        };
                        let soul = match u.soul {
                            Some(mut s) => {
                                s.cost(cost);
                                Some(s)
                            },
                            None => None,
                        };
                        let u2 = Unit {
                            state: Some(state),
                            soul,
                            attack_cool_down: Some(cd),
                            animation: Some(anim),
                            prefix: pfx,
                            ..u
                        };
                        w.units.set(i, u2);
                        proof {
                            lemma_shield_trigger_wf(u, left, right);
                        }
                    },
                }
            }
            proof {
                assert(w.units@ =~= combo_trigger_stage(old(w).units@, left, right));
            }
        },
    }
}

/// The perform step emits at most one attack, and a well-formed one.
pub proof fn lemma_combo_perform_attacks_wf(units: Seq<Unit>, next_id: u64, delta: u32, aim: Vec2i)
    requires
        forall|i: int| 0 <= i < units.len() ==> (#[trigger] units[i]).wf(),
        is_unit_dir(aim),
    ensures
        combo_perform_stage(units, next_id, delta, aim).2.len() <= 1,
        forall|k: int|
            0 <= k < combo_perform_stage(units, next_id, delta, aim).2.len() ==> (
            #[trigger] combo_perform_stage(units, next_id, delta, aim).2[k]).wf(),
        combo_perform_stage(units, next_id, delta, aim).0.len() <= units.len() + 1,
        next_id as int <= combo_perform_stage(units, next_id, delta, aim).1 <= next_id as int + 1,
{
    crate::entity::lemma_first_controlling(units);
}

/// The assault perform step emits at most one attack, and a well-formed one.
pub proof fn lemma_assault_perform_attacks_wf(units: Seq<Unit>, delta: u32, aim: Vec2i)
    requires
        forall|i: int| 0 <= i < units.len() ==> (#[trigger] units[i]).wf(),
        is_unit_dir(aim),
    ensures
        assault_perform_stage(units, delta, aim).1.len() <= 1,
        forall|k: int|
            0 <= k < assault_perform_stage(units, delta, aim).1.len() ==> (
            #[trigger] assault_perform_stage(units, delta, aim).1[k]).wf(),
        assault_perform_stage(units, delta, aim).0.len() == units.len(),
{
    crate::entity::lemma_first_controlling(units);
}

/// The remaining single-entity steps keep the arena's length.
pub proof fn lemma_shield_stage_lens(
    units: Seq<Unit>,
    space: bool,
    left: bool,
    right: bool,
    aim: Vec2i,
)
    ensures
        assault_trigger_stage(units, space, aim).len() == units.len(),
        assault_click_stage(units, left, right).len() == units.len(),
        combo_trigger_stage(units, left, right).len() == units.len(),
{
    crate::entity::lemma_first_controlling(units);
}

/// Combo windows expire: once the prefix window's remaining time fits in
/// the elapsed step, the cooldown stage clears it, and a left click in the
/// same tick is treated as a fresh chain opener — the machine enters
/// `ShieldAttackA` with a fresh window, not the follow-up `ShieldAttackAA`.
pub proof fn lemma_combo_window_expires(u: Unit, delta: u32)
    requires
        u.controlling,
        u.state == Some(PlayerState::Stand),
        u.prefix is Some,
        u.prefix->Some_0.remaining <= delta,
        match u.attack_cool_down {
            Some(c) => c <= delta,
            None => true,
        },
    ensures
        crate::cooldown::spec_cooldown_unit(u, delta).prefix is None,
        spec_shield_trigger(crate::cooldown::spec_cooldown_unit(u, delta), true, false).state
            == Some(PlayerState::ShieldAttackA),
        spec_shield_trigger(crate::cooldown::spec_cooldown_unit(u, delta), true, false).prefix
            == Some(ShieldAttackPrefix { kind: ShieldAttackType::A, remaining: PREFIX_A_WINDOW }),
{
}

/// Within the window the same click continues the chain instead: after a
/// step that leaves the window (and the cooldown) open, a left click on a
/// recorded light attack advances to the follow-up.
pub proof fn lemma_combo_window_continues(u: Unit, delta: u32)
    requires
        u.controlling,
        u.state == Some(PlayerState::Stand),
        u.prefix is Some,
        u.prefix->Some_0.kind == ShieldAttackType::A,
        u.prefix->Some_0.remaining > delta,
        match u.attack_cool_down {
            Some(c) => c <= delta,
            None => true,
        },
    ensures
        spec_shield_trigger(crate::cooldown::spec_cooldown_unit(u, delta), true, false).state
            == Some(PlayerState::ShieldAttackAA),
{
}

/// One of the attack states whose animation an assault may cancel.
pub open spec fn is_shield_attack(s: PlayerState) -> bool {
    match s {
        PlayerState::ShieldAttackA => true,
        PlayerState::ShieldAttackAA => true,
        PlayerState::ShieldAttackAB => true,
        PlayerState::ShieldAttackB => true,
        PlayerState::ShieldAttackBB => true,
        PlayerState::ShieldAttackBBB => true,
        _ => false,
    }
}

/// The assault trigger step: from the rest state or any attack state (whose
/// animation is cancelled), outside the assault cooldown, the entity dashes
/// along `aim`; manual control is suspended for the assault's duration and
/// the assault cooldown starts.
pub open spec fn spec_assault_trigger(u: Unit, aim: Vec2i) -> Unit {
    if u.controlling && u.assault_cool_down is None && (match u.state {
        Some(s) => s == PlayerState::Stand || is_shield_attack(s),
        None => false,
    }) {
        Unit {
            state: Some(PlayerState::ShieldAssault),
            velocity: Velocity(
                Vec2i {
                    x: (aim.x * ASSAULT_SPEED_FACTOR) as i64,
                    y: (aim.y * ASSAULT_SPEED_FACTOR) as i64,
                },
            ),
            animation: None,
            assault_cool_down: Some(ASSAULT_CD),
            assault: Some(ASSAULT_TIME),
            wasd_disabled: true,
            ..u
        }
    } else {
        u
    }
}

pub open spec fn assault_trigger_stage(units: Seq<Unit>, space: bool, aim: Vec2i) -> Seq<Unit> {
    if !space {
        units
    } else {
        match first_controlling(units) {
            None => units,
            Some(i) => units.update(i, spec_assault_trigger(units[i], aim)),
        }
    }
}

/// On the dedicated key, start the assault dash on the controlled entity.
pub fn trigger_shield_assault(w: &mut World, space: bool, aim: Vec2i)
    requires
        old(w).wf(),
        is_unit_dir(aim),
    ensures
        final(w).units@ == assault_trigger_stage(old(w).units@, space, aim),
        final(w).next_id == old(w).next_id,
        final(w).wf(),
{
    proof {
        lemma_unit_dir_bounds(aim);
    }
    if !space {
        return ;
    }
    let idx = w.find_controlling();
    match idx {
        None => {},
        Some(i) => {
            let u = w.units[i];
            let gate = u.controlling && u.assault_cool_down.is_none() && (match u.state {
                Some(PlayerState::Stand) => true,
                Some(PlayerState::ShieldAttackA) => true,
                Some(PlayerState::ShieldAttackAA) => true,
                Some(PlayerState::ShieldAttackAB) => true,
                Some(PlayerState::ShieldAttackB) => true,
                Some(PlayerState::ShieldAttackBB) => true,
                Some(PlayerState::ShieldAttackBBB) => true,
                _ => false,
            });
            if gate {
                let u2 = Unit {
                    state: Some(PlayerState::ShieldAssault),
                    velocity: Velocity(
                        Vec2i {
                            x: aim.x * ASSAULT_SPEED_FACTOR,
                            y: aim.y * ASSAULT_SPEED_FACTOR,
                        },
                    ),
                    animation: None,
                    assault_cool_down: Some(ASSAULT_CD),
                    assault: Some(ASSAULT_TIME),
                    wasd_disabled: true,
                    ..u
                };
                w.units.set(i, u2);
            }
            proof {
                assert(w.units@ =~= assault_trigger_stage(old(w).units@, space, aim));
            }
        },
    }
}

/// The assault sub-state step: while dashing, a click turns the dash into
/// its sweeping melee (left) or wide (right) variant.
pub open spec fn spec_assault_click(u: Unit, left: bool, right: bool) -> Unit {
    if u.controlling && u.state == Some(PlayerState::ShieldAssault) {
        if left {
            Unit { state: Some(PlayerState::ShieldAssaultA), ..u }
        } else if right {
            Unit { state: Some(PlayerState::ShieldAssaultB), ..u }
        } else {
            u
        }
    } else {
        u
    }
}

pub open spec fn assault_click_stage(units: Seq<Unit>, left: bool, right: bool) -> Seq<Unit> {
    match first_controlling(units) {
        None => units,
        Some(i) => units.update(i, spec_assault_click(units[i], left, right)),
    }
}

/// While dashing, a click picks the assault's attacking sub-state.
pub fn trigger_shield_assault_attack(w: &mut World, left: bool, right: bool)
    requires
        old(w).wf(),
    ensures
        final(w).units@ == assault_click_stage(old(w).units@, left, right),
        final(w).next_id == old(w).next_id,
        final(w).wf(),
{
    let idx = w.find_controlling();
    match idx {
        None => {},
        Some(i) => {
            let u = w.units[i];
            let in_assault = match u.state {
                Some(PlayerState::ShieldAssault) => true,
                _ => false,
            };
            if u.controlling && in_assault {
                if left {
                    w.units.set(i, Unit { state: Some(PlayerState::ShieldAssaultA), ..u });
                } else if right {
                    w.units.set(i, Unit { state: Some(PlayerState::ShieldAssaultB), ..u });
                }
            }
            proof {
                assert(w.units@ =~= assault_click_stage(old(w).units@, left, right));
            }
        },
    }
}

/// The assault perform step: the assault timer advances by `delta`. When it
/// elapses, manual control resumes and the machine rests, whatever the
/// sub-state; until then, an attacking sub-state sweeps its area once per
/// tick.
pub open spec fn assault_perform_stage(units: Seq<Unit>, delta: u32, aim: Vec2i) -> (
    Seq<Unit>,
    Seq<GroupAttackView>,
) {
    match first_controlling(units) {
        None => (units, Seq::<GroupAttackView>::empty()),
        Some(i) => {
            let u = units[i];
            match (u.assault, u.state) {
                (Some(t), Some(st)) => if t <= delta {
                    (
                        units.update(
                            i,
                            Unit {
                                assault: None,
                                wasd_disabled: false,
                                state: Some(PlayerState::Stand),
                                ..u
                            },
                        ),
                        Seq::<GroupAttackView>::empty(),
                    )
                } else {
                    let u2 = Unit { assault: Some((t - delta) as u32), ..u };
                    let em = if st == PlayerState::ShieldAssaultA {
                        seq![
                            GroupAttackView {
                                area: AttackArea::HalfCircle {
                                    o: u.position.0,
                                    r: SHIELD_MELEE_RADIUS,
                                    v: aim,
                                },
                                entities: Seq::<u64>::empty(),
                                damage: AttackDamage::Physical { damage: 30, power: 2 },
                                from: Some(u.id),
                            },
                        ]
                    } else if st == PlayerState::ShieldAssaultB {
                        seq![
                            GroupAttackView {
                                area: AttackArea::Rectangle {
                                    o: u.position.0,
                                    w: ASSAULT_B_WIDTH,
                                    h: ASSAULT_B_HEIGHT,
                                    v: aim,
                                },
                                entities: Seq::<u64>::empty(),
                                damage: AttackDamage::Physical { damage: 40, power: 2 },
                                from: Some(u.id),
                            },
                        ]
                    } else {
                        Seq::<GroupAttackView>::empty()
                    };
                    (units.update(i, u2), em)
                },
                _ => (units, Seq::<GroupAttackView>::empty()),
            }
        },
    }
}

/// Advance the assault; emit the sub-state's sweep or end the dash.
pub fn perform_shield_assault_attack(
    w: &mut World,
    attacks: &mut Vec<GroupAttack>,
    delta: u32,
    aim: Vec2i,
)
    requires
        old(w).wf(),
        is_unit_dir(aim),
    ensures
        final(w).units@ == assault_perform_stage(old(w).units@, delta, aim).0,
        final(w).next_id == old(w).next_id,
        views_of(final(attacks)@) == views_of(old(attacks)@) + assault_perform_stage(
            old(w).units@,
            delta,
            aim,
        ).1,
        final(w).wf(),
{
    let ghost stage = assault_perform_stage(old(w).units@, delta, aim);
    let idx = w.find_controlling();
    match idx {
        None => {},
        Some(i) => {
            let u = w.units[i];
            match (u.assault, u.state) {
                (Some(t), Some(st)) => {
                    if t <= delta {
                        w.units.set(
                            i,
                            Unit {
                                assault: None,
                                wasd_disabled: false,
                                state: Some(PlayerState::Stand),
                                ..u
                            },
                        );
                    } else {
                        w.units.set(i, Unit { assault: Some(t - delta), ..u });
                        match st {
                            PlayerState::ShieldAssaultA => {
                                attacks.push(
                                    GroupAttack {
                                        area: AttackArea::HalfCircle {
                                            o: u.position.0,
                                            r: SHIELD_MELEE_RADIUS,
                                            v: aim,
                                        },
                                        entities: Vec::new(),
                                        damage: AttackDamage::Physical { damage: 30, power: 2 },
                                        from: Some(u.id),
                                    },
                                );
                            },
                            PlayerState::ShieldAssaultB => {
                                attacks.push(
                                    GroupAttack {
                                        area: AttackArea::Rectangle {
                                            o: u.position.0,
                                            w: ASSAULT_B_WIDTH,
                                            h: ASSAULT_B_HEIGHT,
                                            v: aim,
                                        },
                                        entities: Vec::new(),
                                        damage: AttackDamage::Physical { damage: 40, power: 2 },
                                        from: Some(u.id),
                                    },
                                );
                            },
                            _ => {},
                        }
                    }
                },
                _ => {},
            }
        },
    }
    proof {
        assert(w.units@ =~= stage.0);
        assert(views_of(attacks@) =~= views_of(old(attacks)@) + stage.1);
    }
}

} // verus!
