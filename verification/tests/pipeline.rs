use upstream_core::attack::{flat_group_damage, AttackArea, AttackDamage, GroupAttack, SingleAttack};
use upstream_core::engine::{tick, TickInput};
use upstream_core::entity::{PlayerState, World};
use upstream_core::geom::Vec2i;
use upstream_core::movement::MoveKeys;
use upstream_core::soul::SoulPower;

fn quiet(delta_ms: u32) -> TickInput {
    TickInput {
        delta_ms,
        left_click: false,
        right_click: false,
        assault_key: false,
        keys: MoveKeys { up: false, down: false, left: false, right: false },
        aim: Vec2i { x: 100, y: 0 },
    }
}

fn hp_of(w: &World, id: u64) -> u32 {
    w.units.iter().find(|u| u.id == id).unwrap().health.unwrap().now
}

#[test]
fn flatten_excludes_the_attacker() {
    let mut w = World::new();
    let player = w.spawn_player(Vec2i { x: 0, y: 0 });
    let near = w.spawn_monster(Vec2i { x: 100_000, y: 0 }, 500);
    let far = w.spawn_monster(Vec2i { x: 900_000, y: 0 }, 500);
    let attacks = vec![GroupAttack {
        area: AttackArea::Circle { o: Vec2i { x: 0, y: 0 }, r: 150_000 },
        entities: Vec::new(),
        damage: AttackDamage::Physical { damage: 30, power: 2 },
        from: Some(player),
    }];
    let mut singles: Vec<SingleAttack> = Vec::new();
    flat_group_damage(&mut w, attacks, &mut singles);
    // the player stands at the center but is never hit by its own attack.
    assert_eq!(singles.len(), 1);
    assert_eq!(singles[0].entity, near);
    assert!(singles.iter().all(|s| s.entity != player));
    let _ = far;
}

#[test]
fn flatten_yields_one_single_per_entity() {
    let mut w = World::new();
    let target = w.spawn_monster(Vec2i { x: 50_000, y: 0 }, 500);
    // the target is both pre-seeded and geometrically inside: still one hit.
    let attacks = vec![GroupAttack {
        area: AttackArea::Circle { o: Vec2i { x: 0, y: 0 }, r: 150_000 },
        entities: vec![target],
        damage: AttackDamage::Magical { damage: 10 },
        from: None,
    }];
    let mut singles: Vec<SingleAttack> = Vec::new();
    flat_group_damage(&mut w, attacks, &mut singles);
    assert_eq!(singles.iter().filter(|s| s.entity == target).count(), 1);
}

#[test]
fn seeded_targets_bypass_geometry() {
    let mut w = World::new();
    let far = w.spawn_monster(Vec2i { x: 900_000, y: 0 }, 500);
    let attacks = vec![GroupAttack {
        area: AttackArea::Circle { o: Vec2i { x: 0, y: 0 }, r: 150_000 },
        entities: vec![far],
        damage: AttackDamage::Physical { damage: 50, power: 2 },
        from: None,
    }];
    let mut singles: Vec<SingleAttack> = Vec::new();
    flat_group_damage(&mut w, attacks, &mut singles);
    assert_eq!(singles.len(), 1);
    assert_eq!(singles[0].entity, far);
}

#[test]
fn flatten_spawns_transient_effect_entities() {
    let mut w = World::new();
    let before = w.units.len();
    let attacks = vec![GroupAttack {
        area: AttackArea::Circle { o: Vec2i { x: 10_000, y: 20_000 }, r: 150_000 },
        entities: Vec::new(),
        damage: AttackDamage::Magical { damage: 1 },
        from: None,
    }];
    let mut singles: Vec<SingleAttack> = Vec::new();
    flat_group_damage(&mut w, attacks, &mut singles);
    assert_eq!(w.units.len(), before + 1);
    let effect = w.units.last().unwrap();
    assert_eq!(effect.removal, Some(300));
    assert_eq!(effect.position.0.x, 10_000);
    // the effect entity removes itself once its removal timer elapses.
    tick(&mut w, quiet(400));
    assert_eq!(w.units.len(), before);
}

#[test]
fn melee_attack_damages_monster_in_reach() {
    let mut w = World::new();
    w.spawn_player(Vec2i { x: 0, y: 0 });
    let m = w.spawn_monster(Vec2i { x: 100_000, y: 0 }, 500);
    tick(&mut w, TickInput { left_click: true, ..quiet(16) });
    // the half circle (damage 30) is emitted when the animation completes.
    tick(&mut w, quiet(300));
    assert_eq!(hp_of(&w, m), 470);
}

#[test]
fn melee_attack_misses_monster_behind() {
    let mut w = World::new();
    w.spawn_player(Vec2i { x: 0, y: 0 });
    let m = w.spawn_monster(Vec2i { x: -120_000, y: 0 }, 500);
    tick(&mut w, TickInput { left_click: true, ..quiet(16) });
    tick(&mut w, quiet(300));
    assert_eq!(hp_of(&w, m), 500);
}

#[test]
fn drained_entity_is_removed() {
    let mut w = World::new();
    w.spawn_player(Vec2i { x: 0, y: 0 });
    let m = w.spawn_monster(Vec2i { x: 100_000, y: 0 }, 30);
    tick(&mut w, TickInput { left_click: true, ..quiet(16) });
    tick(&mut w, quiet(300));
    // damage 30 drains the 30-point pool; the entity dies and is removed
    // in the same tick.
    assert!(w.units.iter().all(|u| u.id != m));
}

#[test]
fn locked_health_never_dies() {
    let mut w = World::new();
    w.spawn_player(Vec2i { x: 0, y: 0 });
    let m = w.spawn_monster(Vec2i { x: 100_000, y: 0 }, 30);
    let idx = w.units.iter().position(|u| u.id == m).unwrap();
    w.units[idx].lock_health = true;
    tick(&mut w, TickInput { left_click: true, ..quiet(16) });
    tick(&mut w, quiet(300));
    // raw damage 30 >= 30 points, but the post-damage clamp floors the
    // locked pool at 1 before death is evaluated.
    assert!(w.units.iter().any(|u| u.id == m));
    assert_eq!(hp_of(&w, m), 1);
}

#[test]
fn counter_attack_consumes_click_and_hits_marked_targets() {
    let mut w = World::new();
    let player = w.spawn_player(Vec2i { x: 0, y: 0 });
    let marked = w.spawn_monster(Vec2i { x: 900_000, y: 0 }, 500);
    let unmarked = w.spawn_monster(Vec2i { x: 800_000, y: 0 }, 500);
    let pi = w.units.iter().position(|u| u.id == player).unwrap();
    w.units[pi].counter_attack = true;
    w.units[pi].soul = Some(SoulPower { now: 0, max: 200 });
    let mi = w.units.iter().position(|u| u.id == marked).unwrap();
    w.units[mi].counter_attack_target = true;
    tick(&mut w, TickInput { left_click: true, ..quiet(16) });
    // the marked target is hit across the map (pre-seeded), the unmarked
    // one is out of the strike's circle.
    assert_eq!(hp_of(&w, marked), 450);
    assert_eq!(hp_of(&w, unmarked), 500);
    // the click was consumed: no common attack was triggered.
    let p = w.units.iter().find(|u| u.id == player).unwrap();
    assert_eq!(p.state.unwrap(), PlayerState::Stand);
    assert!(!p.counter_attack);
    // the counter restores 50 soul.
    assert_eq!(p.soul.unwrap().now, 50);
}

#[test]
fn projectile_scenario_end_to_end() {
    let mut w = World::new();
    let player = w.spawn_player(Vec2i { x: 0, y: 0 });
    let pi = w.units.iter().position(|u| u.id == player).unwrap();
    w.units[pi].health = Some(upstream_core::health::Health { now: 200, max: 200 });
    w.units[pi].soul = Some(SoulPower { now: 20, max: 200 });
    let m = w.spawn_monster(Vec2i { x: 300_000, y: 0 }, 100);
    // right click triggers the ranged opener for its full 20 soul.
    tick(&mut w, TickInput { right_click: true, ..quiet(16) });
    assert_eq!(w.units[pi].state.unwrap(), PlayerState::ShieldAttackB);
    assert_eq!(w.units[pi].soul.unwrap().now, 0);
    assert_eq!(w.units[pi].soul.unwrap().max, 200);
    // the action timer elapses: a projectile spawns, flying along +X.
    tick(&mut w, quiet(300));
    let bullet = *w.units.iter().find(|u| u.bullet.is_some()).unwrap();
    assert_eq!(bullet.velocity.0.x, 600);
    assert_eq!(bullet.radius.unwrap().0, 30_000);
    match bullet.bullet.unwrap().damage.unwrap() {
        AttackDamage::Physical { damage, power } => {
            assert_eq!(damage, 20);
            assert_eq!(power, 1);
        },
        _ => panic!("expected a physical payload"),
    }
    // fly until impact: contact needs the centers within 30 + 50 units,
    // i.e. the projectile at x = 220 units or beyond.
    let mut flew: u32 = 0;
    while w.units.iter().any(|u| u.bullet.is_some()) {
        tick(&mut w, quiet(100));
        flew += 1;
        assert!(flew < 60, "projectile never hit");
        let b = w.units.iter().find(|u| u.bullet.is_some());
        if let Some(b) = b {
            assert!(b.position.0.x <= 220_000 + 60_000);
        }
    }
    // the impact releases a 30-unit circle at the impact point: the
    // monster loses exactly the payload's 20 points.
    assert_eq!(hp_of(&w, m), 80);
}

#[test]
fn assault_sweep_hits_once_per_tick() {
    let mut w = World::new();
    w.spawn_player(Vec2i { x: 0, y: 0 });
    // ahead along the dash path: the dash covers 80 units per 100 ms tick.
    let m = w.spawn_monster(Vec2i { x: 250_000, y: 0 }, 500);
    tick(&mut w, TickInput { assault_key: true, ..quiet(16) });
    tick(&mut w, TickInput { left_click: true, ..quiet(100) });
    // each following tick of the running assault sweeps the half circle
    // once (damage 30).
    tick(&mut w, quiet(100));
    assert_eq!(hp_of(&w, m), 470);
    tick(&mut w, quiet(100));
    assert_eq!(hp_of(&w, m), 440);
}

#[test]
fn heavy_follow_up_sweeps_a_rectangle() {
    let mut w = World::new();
    w.spawn_player(Vec2i { x: 0, y: 0 });
    // in front, inside the 250-long, 110-high box (padded by the 50
    // radius).
    let front = w.spawn_monster(Vec2i { x: 200_000, y: 0 }, 500);
    // to the side, outside the padded box.
    let side = w.spawn_monster(Vec2i { x: 100_000, y: 140_000 }, 500);
    tick(&mut w, TickInput { left_click: true, ..quiet(16) });
    tick(&mut w, quiet(300));
    let front_after_opener = hp_of(&w, front);
    let side_after_opener = hp_of(&w, side);
    tick(&mut w, TickInput { right_click: true, ..quiet(16) });
    tick(&mut w, quiet(200));
    // the heavy follow-up (damage 40) reaches the monster in front only:
    // the one to the side is outside the padded box.
    assert_eq!(hp_of(&w, front), front_after_opener - 40);
    assert_eq!(hp_of(&w, side), side_after_opener);
}

#[test]
fn one_area_attack_hits_every_entity_in_reach_once() {
    let mut w = World::new();
    w.spawn_player(Vec2i { x: 0, y: 0 });
    let a = w.spawn_monster(Vec2i { x: 100_000, y: 0 }, 500);
    let b = w.spawn_monster(Vec2i { x: 80_000, y: 80_000 }, 500);
    tick(&mut w, TickInput { left_click: true, ..quiet(16) });
    tick(&mut w, quiet(300));
    assert_eq!(hp_of(&w, a), 470);
    assert_eq!(hp_of(&w, b), 470);
}

#[test]
fn projectile_impact_resolves_an_area_not_just_the_target() {
    let mut w = World::new();
    w.spawn_player(Vec2i { x: 0, y: 0 });
    let hit_direct = w.spawn_monster(Vec2i { x: 300_000, y: 0 }, 100);
    // a bystander within the impact circle of the explosion point.
    let bystander = w.spawn_monster(Vec2i { x: 240_000, y: 70_000 }, 100);
    tick(&mut w, TickInput { right_click: true, ..quiet(16) });
    tick(&mut w, quiet(300));
    let mut flew: u32 = 0;
    while w.units.iter().any(|u| u.bullet.is_some()) {
        tick(&mut w, quiet(100));
        flew += 1;
        assert!(flew < 60, "projectile never hit");
    }
    assert_eq!(hp_of(&w, hit_direct), 80);
    assert_eq!(hp_of(&w, bystander), 80);
}

#[test]
fn projectile_despawns_at_exact_contact_boundary() {
    let mut w = World::new();
    w.spawn_player(Vec2i { x: 0, y: 0 });
    // contact at distance exactly 30 + 50 units: with 60-unit flight steps
    // from the origin, the projectile lands exactly on the boundary at
    // x = 240 against a monster at x = 320.
    let m = w.spawn_monster(Vec2i { x: 320_000, y: 0 }, 100);
    tick(&mut w, TickInput { right_click: true, ..quiet(16) });
    tick(&mut w, quiet(300));
    assert!(w.units.iter().any(|u| u.bullet.is_some()));
    for _ in 0..3 {
        tick(&mut w, quiet(100));
        assert!(w.units.iter().any(|u| u.bullet.is_some()));
        assert_eq!(hp_of(&w, m), 100);
    }
    // the fourth flight step reaches x = 240: distance 80 equals the sum
    // of the radii, and the boundary counts as contact.
    tick(&mut w, quiet(100));
    assert!(w.units.iter().all(|u| u.bullet.is_none()));
    assert_eq!(hp_of(&w, m), 80);
}
