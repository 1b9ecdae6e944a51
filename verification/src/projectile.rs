//! Projectiles: moving hit-scan entities that, on first contact with any
//! radius-bearing entity other than themselves and their owner, despawn and
//! release their payload as a circular area attack at the impact point.

use vstd::prelude::*;
use crate::attack::{AttackArea, GroupAttack, GroupAttackView, views_of};
use crate::entity::{Unit, World};
use crate::geom::dist_sq;

verus! {

/// The bullet `b` touches the entity `t`: both carry a footprint, `t` is
/// neither the bullet itself nor its owner, and the distance of the
/// centers is at most the two radii together — the boundary included, as
/// for every other contact test of the core.
pub open spec fn bullet_touches(t: Unit, b: Unit) -> bool {
    match (t.radius, b.radius, b.bullet) {
        (Some(rt), Some(rb), Some(props)) => {
            &&& t.id != b.id
            &&& props.owner != Some(t.id)
            &&& dist_sq(b.position.0, t.position.0) <= (rb.0 + rt.0) * (rb.0 + rt.0)
        },
        _ => false,
    }
}

/// The bullet collides with something in the arena this tick.
pub open spec fn exploded(all: Seq<Unit>, b: Unit) -> bool {
    exists|j: int| 0 <= j < all.len() && bullet_touches(#[trigger] all[j], b)
}

/// The entities that survive the projectile stage: every bullet in contact
/// despawns, everything else stays.
pub open spec fn bullet_survivors(all: Seq<Unit>, units: Seq<Unit>) -> Seq<Unit>
    decreases units.len(),
{
    if units.len() == 0 {
        Seq::<Unit>::empty()
    } else {
        let rest = bullet_survivors(all, units.drop_last());
        if exploded(all, units.last()) {
            rest
        } else {
            rest.push(units.last())
        }
    }
}

/// The area attacks the exploding bullets release, in arena order: a circle
/// of the bullet's own travel radius at the impact point, from the bullet's
/// owner, with an empty pre-seeded target list.
pub open spec fn bullet_attacks(all: Seq<Unit>, units: Seq<Unit>) -> Seq<GroupAttackView>
    decreases units.len(),
{
    if units.len() == 0 {
        Seq::<GroupAttackView>::empty()
    } else {
        let rest = bullet_attacks(all, units.drop_last());
        let b = units.last();
        if exploded(all, b) && b.bullet is Some && b.bullet->Some_0.damage is Some {
            rest.push(
                GroupAttackView {
                    area: AttackArea::Circle { o: b.position.0, r: b.radius->Some_0.0 },
                    entities: Seq::<u64>::empty(),
                    damage: b.bullet->Some_0.damage->Some_0,
                    from: b.bullet->Some_0.owner,
                },
            )
        } else {
            rest
        }
    }
}

/// There are no more impact attacks than entities.
pub proof fn lemma_bullet_attacks_len(all: Seq<Unit>, units: Seq<Unit>)
    ensures
        bullet_attacks(all, units).len() <= units.len(),
    decreases units.len(),
{
    if units.len() > 0 {
        lemma_bullet_attacks_len(all, units.drop_last());
    }
}

/// Impact attacks are well formed: their circle sits at an in-bounds point
/// with an in-bounds radius.
pub proof fn lemma_bullet_attacks_wf(all: Seq<Unit>, units: Seq<Unit>)
    requires
        forall|i: int| 0 <= i < units.len() ==> (#[trigger] units[i]).wf(),
    ensures
        forall|k: int|
            0 <= k < bullet_attacks(all, units).len() ==> (#[trigger] bullet_attacks(
                all,
                units,
            )[k]).wf(),
    decreases units.len(),
{
    if units.len() > 0 {
        assert(forall|i: int|
            0 <= i < units.drop_last().len() ==> (#[trigger] units.drop_last()[i]).wf());
        lemma_bullet_attacks_wf(all, units.drop_last());
        let b = units.last();
        assert(b.wf());
        if exploded(all, b) {
            let jw = choose|jw: int| 0 <= jw < all.len() && bullet_touches(all[jw], b);
            assert(bullet_touches(all[jw], b));
            assert(b.radius is Some);
        }
        let rest = bullet_attacks(all, units.drop_last());
        assert forall|k: int| 0 <= k < bullet_attacks(all, units).len() implies (
        #[trigger] bullet_attacks(all, units)[k]).wf() by {
            if k < rest.len() {
                assert(bullet_attacks(all, units)[k] == rest[k]);
            }
        }
    }
}

/// Resolve projectile contacts: despawn every bullet that touches another
/// entity and emit its impact attack.
pub fn bullet_collision(w: &mut World, attacks: &mut Vec<GroupAttack>)
    requires
        old(w).wf(),
    ensures
        final(w).units@ == bullet_survivors(old(w).units@, old(w).units@),
        final(w).next_id == old(w).next_id,
        views_of(final(attacks)@) == views_of(old(attacks)@) + bullet_attacks(
            old(w).units@,
            old(w).units@,
        ),
        final(w).wf(),
{
    let ghost orig = w.units@;
    let n = w.units.len();
    let mut acc: Vec<Unit> = Vec::new();
    let mut i: usize = 0;
    while i < n
        invariant
            i <= n,
            n == orig.len(),
            w.units@ == orig,
            w.next_id == old(w).next_id,
            old(w).wf(),
            acc@ == bullet_survivors(orig, orig.take(i as int)),
            views_of(attacks@) == views_of(old(attacks)@) + bullet_attacks(
                orig,
                orig.take(i as int),
            ),
            forall|k: int| 0 <= k < acc@.len() ==> (#[trigger] acc@[k]).wf(),
            forall|k: int| 0 <= k < acc@.len() ==> (#[trigger] acc@[k]).id < w.next_id,
            forall|k1: int, k2: int| 0 <= k1 < k2 < acc@.len() ==> acc@[k1].id < acc@[k2].id,
            acc@.len() == 0 || forall|j: int|
                i <= j < n ==> acc@.last().id < (#[trigger] orig[j]).id,
        decreases n - i,
    {
        let b = w.units[i];
        let is_bullet = b.bullet.is_some() && b.radius.is_some();
        let mut hit = false;
        if is_bullet {
            let rb = match b.radius {
                Some(r) => r.0,
                None => 0,
            };
            let owner = match b.bullet {
                Some(p) => p.owner,
                None => None,
            };
            let mut j: usize = 0;
            while j < n
                invariant
                    j <= n,
                    n == orig.len(),
                    w.units@ == orig,
                    b == orig[i as int],
                    i < n,
                    is_bullet,
                    b.bullet.is_some(),
                    b.radius.is_some(),
                    rb == b.radius->Some_0.0,
                    owner == b.bullet->Some_0.owner,
                    old(w).wf(),
                    hit ==> exploded(orig, b),
                    !hit ==> forall|k: int| 0 <= k < j ==> !bullet_touches(#[trigger] orig[k], b),
                decreases n - j,
            {
                if !hit {
                    let t = w.units[j];
                    match t.radius {
                        Some(rt) => {
                            let same = t.id == b.id;
                            let owned = match owner {
                                Some(o) => o == t.id,
                                None => false,
                            };
                            if !same && !owned {
                                proof {
                                    assert(old(w).units@[i as int].wf());
                                    assert(old(w).units@[j as int].wf());
                                    crate::geom::lemma_dist_and_radius_bounds(
                                        b.position.0,
                                        t.position.0,
                                        rb,
                                        rt.0,
                                    );
                                }
                                let dx = b.position.0.x - t.position.0.x;
                                let dy = b.position.0.y - t.position.0.y;
                                let rs = rb + rt.0;
                                if dx * dx + dy * dy <= rs * rs {
                                    hit = true;
                                }
                            }
                        },
                        None => {},
                    }
                }
                j = j + 1;
            }
        }
        proof {
            assert(orig.take(i + 1 as int).drop_last() =~= orig.take(i as int));
            assert(orig.take(i + 1 as int).last() == orig[i as int]);
        }
        if hit {
            proof {
                let jw = choose|jw: int| 0 <= jw < orig.len() && bullet_touches(orig[jw], b);
                assert(bullet_touches(orig[jw], b));
                assert(b.radius is Some && b.bullet is Some);
            }
            let damage = match b.bullet {
                Some(p) => p.damage,
                None => None,
            };
            match damage {
                Some(d) => {
                    let rb = match b.radius {
                        Some(r) => r.0,
                        None => 0,
                    };
                    let owner = match b.bullet {
                        Some(p) => p.owner,
                        None => None,
                    };
                    let g = GroupAttack {
                        area: AttackArea::Circle { o: b.position.0, r: rb },
                        entities: Vec::new(),
                        damage: d,
                        from: owner,
                    };
                    let ghost gv = g@;
                    let ghost apre = attacks@;
                    attacks.push(g);
                    proof {
                        assert(attacks@ == apre.push(g));
                        assert(views_of(attacks@) =~~= views_of(apre).push(gv));
                        assert(bullet_attacks(orig, orig.take(i + 1 as int)) =~~= bullet_attacks(
                            orig,
                            orig.take(i as int),
                        ).push(gv));
                        assert(views_of(attacks@) =~~= views_of(old(attacks)@) + bullet_attacks(
                            orig,
                            orig.take(i + 1 as int),
                        ));
                    }
                },
                None => {
                    proof {
                        assert(views_of(attacks@) =~~= views_of(old(attacks)@) + bullet_attacks(
                            orig,
                            orig.take(i + 1 as int),
                        ));
                    }
                },
            }
        } else {
            acc.push(b);
            proof {
                assert(old(w).units@[i as int].wf());
                assert forall|k: int| 0 <= k < orig.len() implies !bullet_touches(
                    #[trigger] orig[k],
                    b,
                ) by {}
                assert(!exploded(orig, b));
                assert(views_of(attacks@) =~~= views_of(old(attacks)@) + bullet_attacks(
                    orig,
                    orig.take(i + 1 as int),
                ));
            }
        }
        i = i + 1;
    }
    proof {
        assert(orig.take(n as int) =~= orig);
    }
    w.units = acc;
}

} // verus!
