//! Movement: directional input becomes velocity on controlled entities,
//! and velocity is integrated into position once per tick.

use vstd::prelude::*;
use crate::entity::{Unit, World};
use crate::geom::{
    Vec2i, Position, Velocity, COORD_LIMIT, VEL_LIMIT, DELTA_LIMIT, coord_ok,
};

verus! {

/// Walking speed of a controlled entity (milli-units per millisecond).
pub const PLAYER_MOVE_SPEED: i64 = 300;

/// Per-axis speed of a diagonal walk: the walking speed over the square
/// root of two, rounded down, so diagonal movement is no faster.
pub const PLAYER_MOVE_SPEED_DIAG: i64 = 212;

/// The four directional keys of one tick.
#[derive(Clone, Copy, Debug, PartialEq, Eq, Structural)]
pub struct MoveKeys {
    pub up: bool,
    pub down: bool,
    pub left: bool,
    pub right: bool,
}

/// The velocity that a set of held directional keys asks for: opposite keys
/// cancel, a diagonal uses the reduced per-axis speed.
pub open spec fn wasd_velocity(keys: MoveKeys) -> Vec2i {
    let dx: int = (if keys.right { 1int } else { 0int }) - (if keys.left { 1int } else { 0int });
    let dy: int = (if keys.up { 1int } else { 0int }) - (if keys.down { 1int } else { 0int });
    if dx != 0 && dy != 0 {
        Vec2i { x: (dx * PLAYER_MOVE_SPEED_DIAG) as i64, y: (dy * PLAYER_MOVE_SPEED_DIAG) as i64 }
    } else {
        Vec2i { x: (dx * PLAYER_MOVE_SPEED) as i64, y: (dy * PLAYER_MOVE_SPEED) as i64 }
    }
}

/// One entity after the velocity step: a controlled entity whose manual
/// control is not suspended takes the velocity the keys ask for.
pub open spec fn spec_velocity_unit(u: Unit, keys: MoveKeys) -> Unit {
    if u.controlling && !u.wasd_disabled {
        Unit { velocity: Velocity(wasd_velocity(keys)), ..u }
    } else {
        u
    }
}

pub open spec fn velocity_stage(units: Seq<Unit>, keys: MoveKeys) -> Seq<Unit> {
    units.map_values(|u: Unit| spec_velocity_unit(u, keys))
}

/// A coordinate pulled back into the world's bounds.
pub open spec fn clamp_coord(x: int) -> int {
    if x > COORD_LIMIT as int {
        COORD_LIMIT as int
    } else if x < -(COORD_LIMIT as int) {
        -(COORD_LIMIT as int)
    } else {
        x
    }
}

/// One entity after the position step: its velocity, scaled by the elapsed
/// milliseconds, is added to its position, which stays within bounds.
pub open spec fn spec_move_unit(u: Unit, delta: u32) -> Unit {
    Unit {
        position: Position(
            Vec2i {
                x: clamp_coord(u.position.0.x + u.velocity.0.x * delta) as i64,
                y: clamp_coord(u.position.0.y + u.velocity.0.y * delta) as i64,
            },
        ),
        ..u
    }
}

pub open spec fn position_stage(units: Seq<Unit>, delta: u32) -> Seq<Unit> {
    units.map_values(|u: Unit| spec_move_unit(u, delta))
}

/// Update every controlled entity's velocity from the held keys.
pub fn update_controlling_velocity(w: &mut World, keys: MoveKeys)
    requires
        old(w).wf(),
    ensures
        final(w).units@ == velocity_stage(old(w).units@, keys),
        final(w).next_id == old(w).next_id,
        final(w).wf(),
{
    let n = w.units.len();
    let mut i: usize = 0;
    while i < n
        invariant
            i <= n,
            n == w.units@.len(),
            n == old(w).units@.len(),
            w.next_id == old(w).next_id,
            old(w).wf(),
            forall|j: int| i <= j < n ==> w.units@[j] == old(w).units@[j],
            forall|j: int|
                0 <= j < i ==> w.units@[j] == spec_velocity_unit(
                    old(w).units@[j],
                    keys,
                ),
        decreases n - i,
    {
        let u = w.units[i];
        if u.controlling && !u.wasd_disabled {
            let dx: i64 = (if keys.right { 1i64 } else { 0i64 }) - (if keys.left {
                1i64
            } else {
                0i64
            });
            let dy: i64 = (if keys.up { 1i64 } else { 0i64 }) - (if keys.down { 1i64 } else { 0i64 });
            let v = if dx != 0 && dy != 0 {
                Vec2i { x: dx * PLAYER_MOVE_SPEED_DIAG, y: dy * PLAYER_MOVE_SPEED_DIAG }
            } else {
                Vec2i { x: dx * PLAYER_MOVE_SPEED, y: dy * PLAYER_MOVE_SPEED }
            };
            w.units.set(i, Unit { velocity: Velocity(v), ..u });
        }
        i = i + 1;
    }
    proof {
        assert(w.units@ =~= velocity_stage(old(w).units@, keys));
        assert forall|k: int| 0 <= k < w.units@.len() implies (#[trigger] w.units@[k]).wf() by {
            assert(old(w).units@[k].wf());
        }
    }
}

/// Integrate every entity's velocity into its position.
pub fn update_position(w: &mut World, delta: u32)
    requires
        old(w).wf(),
        delta <= DELTA_LIMIT,
    ensures
        final(w).units@ == position_stage(old(w).units@, delta),
        final(w).next_id == old(w).next_id,
        final(w).wf(),
{
    let n = w.units.len();
    let mut i: usize = 0;
    while i < n
        invariant
            i <= n,
            n == w.units@.len(),
            n == old(w).units@.len(),
            w.next_id == old(w).next_id,
            old(w).wf(),
            delta <= DELTA_LIMIT,
            forall|j: int| i <= j < n ==> w.units@[j] == old(w).units@[j],
            forall|j: int|
                0 <= j < i ==> w.units@[j] == spec_move_unit(old(w).units@[j], delta),
        decreases n - i,
    {
        let u = w.units[i];
        proof {
            assert(old(w).units@[i as int].wf());
            assert(u.velocity.0.x * delta <= VEL_LIMIT * (DELTA_LIMIT as i64) && u.velocity.0.x
                * delta >= -(VEL_LIMIT * (DELTA_LIMIT as i64))) by (nonlinear_arith)
                requires
                    -VEL_LIMIT <= u.velocity.0.x <= VEL_LIMIT,
                    0 <= delta <= DELTA_LIMIT,
            ;
            assert(u.velocity.0.y * delta <= VEL_LIMIT * (DELTA_LIMIT as i64) && u.velocity.0.y
                * delta >= -(VEL_LIMIT * (DELTA_LIMIT as i64))) by (nonlinear_arith)
                requires
                    -VEL_LIMIT <= u.velocity.0.y <= VEL_LIMIT,
                    0 <= delta <= DELTA_LIMIT,
            ;
        }
        let nx = clamp_exec(u.position.0.x + u.velocity.0.x * (delta as i64));
        let ny = clamp_exec(u.position.0.y + u.velocity.0.y * (delta as i64));
        w.units.set(i, Unit { position: Position(Vec2i { x: nx, y: ny }), ..u });
        i = i + 1;
    }
    proof {
        assert(w.units@ =~= position_stage(old(w).units@, delta));
        assert forall|k: int| 0 <= k < w.units@.len() implies (#[trigger] w.units@[k]).wf() by {
            assert(old(w).units@[k].wf());
        }
    }
}

fn clamp_exec(x: i64) -> (r: i64)
    requires
        -1_002_000_000 <= x <= 1_002_000_000,
    ensures
        r == clamp_coord(x as int),
        coord_ok(r as int),
{
    if x > COORD_LIMIT {
        COORD_LIMIT
    } else if x < -COORD_LIMIT {
        -COORD_LIMIT
    } else {
        x
    }
}

} // verus!
