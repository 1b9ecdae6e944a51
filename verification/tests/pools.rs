use upstream_core::health::Health;
use upstream_core::saves::GameSave;
use upstream_core::soul::SoulPower;

#[test]
fn damage_reduces_health() {
    let mut h = Health { now: 100, max: 200 };
    h.recieve_damage(30);
    assert_eq!(h.now, 70);
    assert_eq!(h.max, 200);
}

#[test]
fn damage_floors_at_zero() {
    // post-damage now is now - min(d, now), never below 0.
    let mut h = Health { now: 25, max: 200 };
    h.recieve_damage(1000);
    assert_eq!(h.now, 0);
    let mut h2 = Health { now: 25, max: 200 };
    h2.recieve_damage(25);
    assert_eq!(h2.now, 0);
}

#[test]
fn locked_damage_floors_at_one() {
    let mut h = Health { now: 25, max: 200 };
    h.recieve_damage_locked(1000);
    assert_eq!(h.now, 1);
    let mut h2 = Health { now: 25, max: 200 };
    h2.recieve_damage_locked(10);
    assert_eq!(h2.now, 15);
}

#[test]
fn heal_saturates_at_max() {
    let mut h = Health { now: 180, max: 200 };
    h.recieve_heal(50);
    assert_eq!(h.now, 200);
    let mut h2 = Health { now: 100, max: 200 };
    h2.recieve_heal(50);
    assert_eq!(h2.now, 150);
}

#[test]
fn soul_cost_deducts_fully_on_success() {
    let mut s = SoulPower { now: 50, max: 200 };
    assert!(s.cost(20));
    assert_eq!(s.now, 30);
    assert_eq!(s.max, 200);
}

#[test]
fn soul_cost_exact_amount_succeeds() {
    let mut s = SoulPower { now: 20, max: 200 };
    assert!(s.cost(20));
    assert_eq!(s.now, 0);
}

#[test]
fn soul_cost_fails_without_partial_spend() {
    let mut s = SoulPower { now: 19, max: 200 };
    assert!(!s.cost(20));
    assert_eq!(s.now, 19);
    assert_eq!(s.max, 200);
}

#[test]
fn soul_obtain_saturates_at_max() {
    let mut s = SoulPower { now: 180, max: 200 };
    s.obtain(50);
    assert_eq!(s.now, 200);
    let mut s2 = SoulPower { now: 100, max: 200 };
    s2.obtain(50);
    assert_eq!(s2.now, 150);
}

#[test]
fn new_save_has_starting_values() {
    let s = GameSave::new("first".to_string(), 1234);
    assert_eq!(s.saving_name, "first");
    assert_eq!(s.unlocked_mahou, "nashi");
    assert_eq!(s.created_time, 1234);
    assert_eq!(s.last_modified_time, 1234);
    assert_eq!(s.total_playing_time, 0);
    assert_eq!(s.money, 0);
    assert_eq!(s.health, 1500);
    assert_eq!(s.health_limit, 2000);
    assert_eq!(s.energy, 490);
    assert_eq!(s.energy_limit, 500);
}

#[test]
fn save_snapshot_captures_status() {
    let s = GameSave::new("first".to_string(), 1234);
    let h = Health { now: 77, max: 200 };
    let sp = SoulPower { now: 5, max: 300 };
    let s2 = s.with_status(&h, &sp, 2000);
    assert_eq!(s2.health, 77);
    assert_eq!(s2.health_limit, 200);
    assert_eq!(s2.energy, 5);
    assert_eq!(s2.energy_limit, 300);
    assert_eq!(s2.last_modified_time, 2000);
    assert_eq!(s2.created_time, 1234);
}
