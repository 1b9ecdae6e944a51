//! Timed-tag expiry: cooldown and window timers tick down every frame and
//! the tag they guard is removed in the very step its timer elapses.
//! Transient effect entities carry a removal timer that despawns the whole
//! entity instead.

use vstd::prelude::*;
use crate::entity::{Unit, World, ShieldAttackPrefix};

verus! {

/// A ticked timer: gone once its remaining time fits in the elapsed step,
/// else advanced.
pub open spec fn tick_timer(t: Option<u32>, delta: u32) -> Option<u32> {
    match t {
        None => None,
        Some(r) => if r <= delta {
            None
        } else {
            Some((r - delta) as u32)
        },
    }
}

/// The entity's removal timer elapses within this step: the entity is due
/// to despawn.
pub open spec fn removal_due(u: Unit, delta: u32) -> bool {
    match u.removal {
        Some(r) => r <= delta,
        None => false,
    }
}

/// One entity after the cooldown step: every timed tag ticked, expired ones
/// removed.
pub open spec fn spec_cooldown_unit(u: Unit, delta: u32) -> Unit {
    Unit {
        attack_cool_down: tick_timer(u.attack_cool_down, delta),
        assault_cool_down: tick_timer(u.assault_cool_down, delta),
        prefix: match u.prefix {
            None => None,
            Some(p) => if p.remaining <= delta {
                None
            } else {
                Some(ShieldAttackPrefix { kind: p.kind, remaining: (p.remaining - delta) as u32 })
            },
        },
        removal: tick_timer(u.removal, delta),
        ..u
    }
}

/// The cooldown stage: entities whose removal timer elapsed are despawned,
/// all other timed tags tick down in place.
pub open spec fn cooldown_stage(units: Seq<Unit>, delta: u32) -> Seq<Unit>
    decreases units.len(),
{
    if units.len() == 0 {
        Seq::<Unit>::empty()
    } else {
        let rest = cooldown_stage(units.drop_last(), delta);
        if removal_due(units.last(), delta) {
            rest
        } else {
            rest.push(spec_cooldown_unit(units.last(), delta))
        }
    }
}

/// The cooldown stage never grows the arena.
pub proof fn lemma_cooldown_stage_len(units: Seq<Unit>, delta: u32)
    ensures
        cooldown_stage(units, delta).len() <= units.len(),
    decreases units.len(),
{
    if units.len() > 0 {
        lemma_cooldown_stage_len(units.drop_last(), delta);
    }
}

/// Advance all cooldown, window and removal timers of the arena by `delta`
/// milliseconds; remove what elapsed.
pub fn update_cool_downs(w: &mut World, delta: u32)
    requires
        old(w).wf(),
    ensures
        final(w).units@ == cooldown_stage(old(w).units@, delta),
        final(w).next_id == old(w).next_id,
        final(w).wf(),
{
    let ghost orig = w.units@;
    let n = w.units.len();
    let mut acc: Vec<Unit> = Vec::new();
    let mut i: usize = 0;
    while i < n
        invariant
            i <= n,
            n == orig.len(),
            w.units@ == orig,
            w.next_id == old(w).next_id,
            old(w).wf(),
            acc@ == cooldown_stage(orig.take(i as int), delta),
            forall|k: int| 0 <= k < acc@.len() ==> (#[trigger] acc@[k]).wf(),
            forall|k: int| 0 <= k < acc@.len() ==> (#[trigger] acc@[k]).id < w.next_id,
            forall|k1: int, k2: int|
                0 <= k1 < k2 < acc@.len() ==> acc@[k1].id < acc@[k2].id,
            acc@.len() == 0 || forall|j: int|
                i <= j < n ==> acc@.last().id < (#[trigger] orig[j]).id,
        decreases n - i,
    {
        let u = w.units[i];
        let due = match u.removal {
            Some(r) => r <= delta,
            None => false,
        };
        if !due {
            let u2 = Unit {
                attack_cool_down: match u.attack_cool_down {
                    None => None,
                    Some(r) => if r <= delta {
                        None
                    } else {
                        Some(r - delta)
                    },
                },
                assault_cool_down: match u.assault_cool_down {
                    None => None,
                    Some(r) => if r <= delta {
                        None
                    } else {
                        Some(r - delta)
                    },
                },
                prefix: match u.prefix {
                    None => None,
                    Some(p) => if p.remaining <= delta {
                        None
                    } else {
                        Some(ShieldAttackPrefix { kind: p.kind, remaining: p.remaining - delta })
                    },
                },
                removal: match u.removal {
                    None => None,
                    Some(r) => if r <= delta {
                        None
                    } else {
                        Some(r - delta)
                    },
                },
                ..u
            };
            acc.push(u2);
        }
        proof {
            assert(orig.take(i + 1 as int).drop_last() =~= orig.take(i as int));
            assert(orig.take(i + 1 as int).last() == orig[i as int]);
        }
        i = i + 1;
    }
    proof {
        assert(orig.take(n as int) =~= orig);
    }
    w.units = acc;
}

} // verus!
