//! Health pools, the lock that keeps story-critical entities alive, and the
//! post-damage pipeline stages: the lock clamp, the death check and the
//! removal of dead entities. Their order is what makes the lock work: the
//! clamp raises a locked pool back to 1 before death is evaluated.

use vstd::prelude::*;
use crate::entity::{Unit, World};

verus! {

/// Life pool of an entity. When `now` reaches 0 the entity is retired.
#[derive(Clone, Copy, Debug, PartialEq, Eq, Structural)]
pub struct Health {
    pub now: u32,
    pub max: u32,
}

/// What a damage of `d` leaves of a pool of `now`: the pool shrinks by
/// `min(d, now)` and never underflows.
pub open spec fn damaged(now: u32, d: u32) -> u32 {
    if d >= now { 0u32 } else { (now - d) as u32 }
}

impl Health {
    /// A pool is well formed when the current amount never exceeds the limit.
    pub open spec fn wf(self) -> bool {
        self.now <= self.max
    }

    /// Receive `damage`: the pool shrinks by `min(damage, now)`, to 0 at the
    /// lowest.
    pub fn recieve_damage(&mut self, damage: u32)
        ensures
            final(self).now == damaged(old(self).now, damage),
            final(self).max == old(self).max,
            old(self).wf() ==> final(self).wf(),
    {
        self.now -= if damage < self.now { damage } else { self.now };
    }

    /// Receive `damage` under a health lock: the pool shrinks by
    /// `min(damage, now - 1)`, so at least 1 point is always left.
    pub fn recieve_damage_locked(&mut self, damage: u32)
        requires
            old(self).now >= 1,
        ensures
            final(self).now == if damage >= old(self).now {
                1u32
            } else {
                (old(self).now - damage) as u32
            },
            final(self).now >= 1,
            final(self).max == old(self).max,
            old(self).wf() ==> final(self).wf(),
    {
        let cap = self.now - 1;
        self.now -= if damage < cap { damage } else { cap };
    }

    /// Receive `heal`: the pool grows by `heal`, saturating at the limit.
    pub fn recieve_heal(&mut self, heal: u32)
        requires
            old(self).wf(),
        ensures
            final(self).now == if old(self).now + heal <= old(self).max {
                old(self).now + heal
            } else {
                old(self).max as int
            },
            final(self).max == old(self).max,
            final(self).wf(),
    {
        self.now += if heal < self.max - self.now { heal } else { self.max - self.now };
    }
}

/// One entity after the post-damage clamp: a locked health pool that was
/// drained to 0 is raised back to 1; everything else is untouched.
pub open spec fn spec_clamped_unit(u: Unit) -> Unit {
    if u.lock_health && u.health is Some && u.health->Some_0.now == 0 {
        Unit { health: Some(Health { now: 1u32, max: u.health->Some_0.max }), ..u }
    } else {
        u
    }
}

pub open spec fn clamp_stage(units: Seq<Unit>) -> Seq<Unit> {
    units.map_values(|u: Unit| spec_clamped_unit(u))
}

/// One entity after the death check: an entity whose pool is drained is
/// marked dead.
pub open spec fn spec_marked_unit(u: Unit) -> Unit {
    if u.health is Some && u.health->Some_0.now == 0 {
        Unit { dead: true, ..u }
    } else {
        u
    }
}

pub open spec fn mark_stage(units: Seq<Unit>) -> Seq<Unit> {
    units.map_values(|u: Unit| spec_marked_unit(u))
}

/// The arena after the dead are swept out.
pub open spec fn sweep_stage(units: Seq<Unit>) -> Seq<Unit>
    decreases units.len(),
{
    if units.len() == 0 {
        Seq::<Unit>::empty()
    } else {
        let rest = sweep_stage(units.drop_last());
        if units.last().dead {
            rest
        } else {
            rest.push(units.last())
        }
    }
}

/// Raise every locked, fully drained pool back to 1.
pub fn clamp_locked_health(w: &mut World)
    requires
        old(w).wf(),
    ensures
        final(w).units@ == clamp_stage(old(w).units@),
        final(w).next_id == old(w).next_id,
        final(w).wf(),
{
    let n = w.units.len();
    let mut i: usize = 0;
    while i < n
        invariant
            i <= n,
            n == w.units@.len(),
            n == old(w).units@.len(),
            w.next_id == old(w).next_id,
            old(w).wf(),
            forall|j: int| i <= j < n ==> w.units@[j] == old(w).units@[j],
            forall|j: int| 0 <= j < i ==> w.units@[j] == spec_clamped_unit(old(w).units@[j]),
        decreases n - i,
    {
        let u = w.units[i];
        match u.health {
            Some(h) => {
                if u.lock_health && h.now == 0 {
                    w.units.set(i, Unit { health: Some(Health { now: 1, max: h.max }), ..u });
                }
            },
            None => {},
        }
        i = i + 1;
    }
    proof {
        assert(w.units@ =~= clamp_stage(old(w).units@));
        assert forall|k: int| 0 <= k < w.units@.len() implies (#[trigger] w.units@[k]).wf() by {
            assert(old(w).units@[k].wf());
            assert(w.units@[k] == spec_clamped_unit(old(w).units@[k]));
        }
    }
}

/// Mark every entity with a drained pool as dead.
pub fn mark_dead_entities(w: &mut World)
    requires
        old(w).wf(),
    ensures
        final(w).units@ == mark_stage(old(w).units@),
        final(w).next_id == old(w).next_id,
        final(w).wf(),
{
    let n = w.units.len();
    let mut i: usize = 0;
    while i < n
        invariant
            i <= n,
            n == w.units@.len(),
            n == old(w).units@.len(),
            w.next_id == old(w).next_id,
            old(w).wf(),
            forall|j: int| i <= j < n ==> w.units@[j] == old(w).units@[j],
            forall|j: int| 0 <= j < i ==> w.units@[j] == spec_marked_unit(old(w).units@[j]),
        decreases n - i,
    {
        let u = w.units[i];
        match u.health {
            Some(h) => {
                if h.now == 0 {
                    w.units.set(i, Unit { dead: true, ..u });
                }
            },
            None => {},
        }
        i = i + 1;
    }
    proof {
        assert(w.units@ =~= mark_stage(old(w).units@));
        assert forall|k: int| 0 <= k < w.units@.len() implies (#[trigger] w.units@[k]).wf() by {
            assert(old(w).units@[k].wf());
            assert(w.units@[k] == spec_marked_unit(old(w).units@[k]));
        }
    }
}

/// Despawn every entity marked dead.
pub fn remove_dead_entities(w: &mut World)
    requires
        old(w).wf(),
    ensures
        final(w).units@ == sweep_stage(old(w).units@),
        final(w).next_id == old(w).next_id,
        final(w).wf(),
{
    let ghost orig = w.units@;
    let n = w.units.len();
    let mut acc: Vec<Unit> = Vec::new();
    let mut i: usize = 0;
    while i < n
        invariant
            i <= n,
            n == orig.len(),
            w.units@ == orig,
            w.next_id == old(w).next_id,
            old(w).wf(),
            acc@ == sweep_stage(orig.take(i as int)),
            forall|k: int| 0 <= k < acc@.len() ==> (#[trigger] acc@[k]).wf(),
            forall|k: int| 0 <= k < acc@.len() ==> (#[trigger] acc@[k]).id < w.next_id,
            forall|k1: int, k2: int| 0 <= k1 < k2 < acc@.len() ==> acc@[k1].id < acc@[k2].id,
            acc@.len() == 0 || forall|j: int|
                i <= j < n ==> acc@.last().id < (#[trigger] orig[j]).id,
        decreases n - i,
    {
        let u = w.units[i];
        if !u.dead {
            acc.push(u);
        }
        proof {
            assert(orig.take(i + 1 as int).drop_last() =~= orig.take(i as int));
            assert(orig.take(i + 1 as int).last() == orig[i as int]);
        }
        i = i + 1;
    }
    proof {
        assert(orig.take(n as int) =~= orig);
    }
    w.units = acc;
}

/// Landing hits changes nothing but health pools: identifiers, tags and
/// pool limits stay, and no pool appears or disappears.
pub proof fn lemma_apply_singles_preserves(
    units: Seq<Unit>,
    singles: Seq<crate::attack::SingleAttack>,
)
    ensures
        crate::attack::apply_singles(units, singles).len() == units.len(),
        forall|i: int|
            0 <= i < units.len() ==> {
                let v = #[trigger] crate::attack::apply_singles(units, singles)[i];
                &&& v.id == units[i].id
                &&& v.lock_health == units[i].lock_health
                &&& v.dead == units[i].dead
                &&& (v.health is Some <==> units[i].health is Some)
                &&& (v.health is Some ==> v.health->Some_0.max == units[i].health->Some_0.max)
            },
    decreases singles.len(),
{
    if singles.len() > 0 {
        let step = crate::attack::apply_single(units, singles.first());
        lemma_apply_singles_preserves(step, singles.drop_first());
    }
}

/// Locked health never dies: whatever hits land, after the damage stage,
/// the lock clamp and the death check — in that order — every entity whose
/// health is locked still has at least 1 point and is no more dead than it
/// was before.
pub proof fn lemma_locked_health_never_dies(
    units: Seq<Unit>,
    singles: Seq<crate::attack::SingleAttack>,
)
    ensures
        forall|i: int|
            0 <= i < units.len() ==> {
                let v = #[trigger] mark_stage(
                    clamp_stage(crate::attack::apply_singles(units, singles)),
                )[i];
                (v.lock_health && v.health is Some) ==> (v.health->Some_0.now >= 1 && v.dead
                    == units[i].dead)
            },
{
    lemma_apply_singles_preserves(units, singles);
    let damaged_units = crate::attack::apply_singles(units, singles);
    assert forall|i: int| 0 <= i < units.len() implies {
        let v = #[trigger] mark_stage(clamp_stage(damaged_units))[i];
        (v.lock_health && v.health is Some) ==> (v.health->Some_0.now >= 1 && v.dead
            == units[i].dead)
    } by {
        assert(clamp_stage(damaged_units)[i] == spec_clamped_unit(damaged_units[i]));
        assert(mark_stage(clamp_stage(damaged_units))[i] == spec_marked_unit(
            spec_clamped_unit(damaged_units[i]),
        ));
    }
}

} // verus!
