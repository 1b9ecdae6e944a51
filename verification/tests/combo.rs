use upstream_core::engine::{tick, TickInput};
use upstream_core::entity::{PlayerState, World};
use upstream_core::geom::Vec2i;
use upstream_core::movement::MoveKeys;
use upstream_core::soul::SoulPower;

fn quiet(delta_ms: u32) -> TickInput {
    TickInput {
        delta_ms,
        left_click: false,
        right_click: false,
        assault_key: false,
        keys: MoveKeys { up: false, down: false, left: false, right: false },
        aim: Vec2i { x: 100, y: 0 },
    }
}

fn left(delta_ms: u32) -> TickInput {
    TickInput { left_click: true, ..quiet(delta_ms) }
}

fn right(delta_ms: u32) -> TickInput {
    TickInput { right_click: true, ..quiet(delta_ms) }
}

fn player_state(w: &World) -> PlayerState {
    w.units.iter().find(|u| u.controlling).unwrap().state.unwrap()
}

fn player_soul(w: &World) -> SoulPower {
    w.units.iter().find(|u| u.controlling).unwrap().soul.unwrap()
}

#[test]
fn left_click_opens_light_chain() {
    let mut w = World::new();
    w.spawn_player(Vec2i { x: 0, y: 0 });
    tick(&mut w, left(16));
    assert_eq!(player_state(&w), PlayerState::ShieldAttackA);
}

#[test]
fn click_within_window_advances_to_follow_up() {
    let mut w = World::new();
    w.spawn_player(Vec2i { x: 0, y: 0 });
    tick(&mut w, left(16));
    // animation (200 ms) and cooldown (200 ms) both elapse; the 1.5 s
    // window stays open.
    tick(&mut w, quiet(300));
    assert_eq!(player_state(&w), PlayerState::Stand);
    tick(&mut w, left(16));
    assert_eq!(player_state(&w), PlayerState::ShieldAttackAA);
}

#[test]
fn click_after_window_expiry_starts_fresh_chain() {
    let mut w = World::new();
    w.spawn_player(Vec2i { x: 0, y: 0 });
    tick(&mut w, left(16));
    // 16 + 900 + 900 = 1816 ms > 1500 ms: the window has expired.
    tick(&mut w, quiet(900));
    tick(&mut w, quiet(900));
    assert_eq!(player_state(&w), PlayerState::Stand);
    tick(&mut w, left(16));
    assert_eq!(player_state(&w), PlayerState::ShieldAttackA);
}

#[test]
fn attack_cooldown_blocks_retrigger() {
    let mut w = World::new();
    w.spawn_player(Vec2i { x: 0, y: 0 });
    tick(&mut w, left(16));
    tick(&mut w, quiet(300));
    tick(&mut w, left(16));
    // the follow-up starts a 1.4 s cooldown and a 0.4 s animation.
    assert_eq!(player_state(&w), PlayerState::ShieldAttackAA);
    tick(&mut w, quiet(500));
    assert_eq!(player_state(&w), PlayerState::Stand);
    // about 900 ms of cooldown left: the click is ignored.
    tick(&mut w, left(16));
    assert_eq!(player_state(&w), PlayerState::Stand);
    // once the cooldown elapses, the click opens a fresh chain.
    tick(&mut w, quiet(900));
    tick(&mut w, left(16));
    assert_eq!(player_state(&w), PlayerState::ShieldAttackA);
}

#[test]
fn ranged_opener_costs_twenty_soul() {
    let mut w = World::new();
    w.spawn_player(Vec2i { x: 0, y: 0 });
    tick(&mut w, right(16));
    assert_eq!(player_state(&w), PlayerState::ShieldAttackB);
    assert_eq!(player_soul(&w).now, 1980);
}

#[test]
fn insufficient_soul_blocks_transition_silently() {
    let mut w = World::new();
    let id = w.spawn_player(Vec2i { x: 0, y: 0 });
    let idx = w.units.iter().position(|u| u.id == id).unwrap();
    w.units[idx].soul = Some(SoulPower { now: 19, max: 200 });
    tick(&mut w, right(16));
    assert_eq!(player_state(&w), PlayerState::Stand);
    assert_eq!(player_soul(&w).now, 19);
    // no cooldown was started either: a left click triggers at once.
    tick(&mut w, left(16));
    assert_eq!(player_state(&w), PlayerState::ShieldAttackA);
}

#[test]
fn heavy_follow_up_costs_thirty_soul() {
    let mut w = World::new();
    w.spawn_player(Vec2i { x: 0, y: 0 });
    tick(&mut w, left(16));
    tick(&mut w, quiet(300));
    tick(&mut w, right(16));
    assert_eq!(player_state(&w), PlayerState::ShieldAttackAB);
    assert_eq!(player_soul(&w).now, 1970);
}

#[test]
fn ranged_chain_reaches_third_stage() {
    let mut w = World::new();
    w.spawn_player(Vec2i { x: 0, y: 0 });
    tick(&mut w, right(16));
    assert_eq!(player_state(&w), PlayerState::ShieldAttackB);
    tick(&mut w, quiet(300));
    tick(&mut w, right(16));
    assert_eq!(player_state(&w), PlayerState::ShieldAttackBB);
    tick(&mut w, quiet(300));
    tick(&mut w, right(16));
    assert_eq!(player_state(&w), PlayerState::ShieldAttackBBB);
    // 20 + 20 + 30 soul spent in total.
    assert_eq!(player_soul(&w).now, 2000 - 70);
}

#[test]
fn assault_sets_velocity_and_suspends_control() {
    let mut w = World::new();
    let id = w.spawn_player(Vec2i { x: 0, y: 0 });
    tick(&mut w, TickInput { assault_key: true, ..quiet(16) });
    let u = *w.units.iter().find(|u| u.id == id).unwrap();
    assert_eq!(u.state.unwrap(), PlayerState::ShieldAssault);
    assert_eq!(u.velocity.0.x, 800);
    assert_eq!(u.velocity.0.y, 0);
    assert!(u.wasd_disabled);
    // held movement keys are ignored while the assault runs.
    tick(
        &mut w,
        TickInput {
            keys: MoveKeys { up: true, down: false, left: false, right: false },
            ..quiet(100)
        },
    );
    let u = *w.units.iter().find(|u| u.id == id).unwrap();
    assert_eq!(u.velocity.0.x, 800);
}

#[test]
fn assault_ends_after_its_duration() {
    let mut w = World::new();
    let id = w.spawn_player(Vec2i { x: 0, y: 0 });
    tick(&mut w, TickInput { assault_key: true, ..quiet(16) });
    tick(&mut w, quiet(300));
    assert_eq!(player_state(&w), PlayerState::ShieldAssault);
    tick(&mut w, quiet(300));
    assert_eq!(player_state(&w), PlayerState::Stand);
    let u = *w.units.iter().find(|u| u.id == id).unwrap();
    assert!(!u.wasd_disabled);
}

#[test]
fn assault_click_picks_sub_state() {
    let mut w = World::new();
    w.spawn_player(Vec2i { x: 0, y: 0 });
    tick(&mut w, TickInput { assault_key: true, ..quiet(16) });
    tick(&mut w, left(100));
    assert_eq!(player_state(&w), PlayerState::ShieldAssaultA);
}

#[test]
fn movement_keys_move_the_player() {
    let mut w = World::new();
    let id = w.spawn_player(Vec2i { x: 0, y: 0 });
    tick(
        &mut w,
        TickInput {
            keys: MoveKeys { up: false, down: false, left: false, right: true },
            ..quiet(100)
        },
    );
    let u = *w.units.iter().find(|u| u.id == id).unwrap();
    // 300 milli-units per ms for 100 ms.
    assert_eq!(u.position.0.x, 30_000);
    assert_eq!(u.position.0.y, 0);
}

#[test]
fn diagonal_movement_uses_reduced_axis_speed() {
    let mut w = World::new();
    let id = w.spawn_player(Vec2i { x: 0, y: 0 });
    tick(
        &mut w,
        TickInput {
            keys: MoveKeys { up: true, down: false, left: false, right: true },
            ..quiet(100)
        },
    );
    let u = *w.units.iter().find(|u| u.id == id).unwrap();
    assert_eq!(u.position.0.x, 21_200);
    assert_eq!(u.position.0.y, 21_200);
}

#[test]
fn opposed_keys_cancel() {
    let mut w = World::new();
    let id = w.spawn_player(Vec2i { x: 0, y: 0 });
    tick(
        &mut w,
        TickInput {
            keys: MoveKeys { up: true, down: true, left: true, right: true },
            ..quiet(100)
        },
    );
    let u = *w.units.iter().find(|u| u.id == id).unwrap();
    assert_eq!(u.position.0.x, 0);
    assert_eq!(u.position.0.y, 0);
}

#[test]
fn left_click_in_ranged_window_opens_fresh_light_chain() {
    let mut w = World::new();
    w.spawn_player(Vec2i { x: 0, y: 0 });
    tick(&mut w, right(16));
    assert_eq!(player_state(&w), PlayerState::ShieldAttackB);
    tick(&mut w, quiet(300));
    // inside the 1.0 s window after the ranged opener, a left click does
    // not continue the ranged chain: it opens the light chain, for free.
    tick(&mut w, left(16));
    assert_eq!(player_state(&w), PlayerState::ShieldAttackA);
    assert_eq!(player_soul(&w).now, 1980);
}

#[test]
fn assault_cooldown_blocks_second_dash() {
    let mut w = World::new();
    w.spawn_player(Vec2i { x: 0, y: 0 });
    tick(&mut w, TickInput { assault_key: true, ..quiet(16) });
    // the dash ends after 0.5 s, but its 1.5 s cooldown still runs.
    tick(&mut w, quiet(600));
    assert_eq!(player_state(&w), PlayerState::Stand);
    tick(&mut w, TickInput { assault_key: true, ..quiet(16) });
    assert_eq!(player_state(&w), PlayerState::Stand);
    // once the cooldown elapses the dash triggers again.
    tick(&mut w, quiet(900));
    tick(&mut w, TickInput { assault_key: true, ..quiet(16) });
    assert_eq!(player_state(&w), PlayerState::ShieldAssault);
}
