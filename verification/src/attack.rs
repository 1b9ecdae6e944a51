//! Attack requests and their geometry.
//!
//! A `GroupAttack` is a pending area attack; the resolution pipeline flattens
//! it into one `SingleAttack` per entity that the area reaches.

use vstd::prelude::*;
use crate::entity::{Unit, World};
use crate::geom::{
    Vec2i, circle_hit, half_circle_hit, rect_hit, circle_contains, half_circle_contains,
    rect_contains, vec_ok, size_ok, is_unit_dir,
};
use crate::health::{Health, damaged};

verus! {

/// Geometry of an area attack. Direction vectors are fixed-point unit
/// vectors (see `geom::is_unit_dir`).
#[derive(Clone, Copy, Debug, PartialEq, Eq, Structural)]
pub enum AttackArea {
    /// Full circle around `o` of radius `r`.
    Circle { o: Vec2i, r: i64 },
    /// Half circle around `o` of radius `r`, opening towards `v`.
    HalfCircle { o: Vec2i, r: i64, v: Vec2i },
    /// Rectangle whose left edge is centered on `o`, extending `w` towards
    /// `v`, of height `h`.
    Rectangle { o: Vec2i, w: i64, h: i64, v: Vec2i },
}

/// Damage payload of an attack.
#[derive(Clone, Copy, Debug, PartialEq, Eq, Structural)]
pub enum AttackDamage {
    Physical { damage: u32, power: u32 },
    Magical { damage: u32 },
}

/// A pending area attack: an area, a damage payload, the attacker (excluded
/// from the hits), and a pre-seeded target list that bypasses geometry.
#[derive(Debug)]
pub struct GroupAttack {
    pub area: AttackArea,
    pub entities: Vec<u64>,
    pub damage: AttackDamage,
    pub from: Option<u64>,
}

/// Ghost image of a `GroupAttack`, with the target list as a sequence.
#[verifier::ext_equal]
pub struct GroupAttackView {
    pub area: AttackArea,
    pub entities: Seq<u64>,
    pub damage: AttackDamage,
    pub from: Option<u64>,
}

impl View for GroupAttack {
    type V = GroupAttackView;

    open spec fn view(&self) -> GroupAttackView {
        GroupAttackView {
            area: self.area,
            entities: self.entities@,
            damage: self.damage,
            from: self.from,
        }
    }
}

/// The views of a queue of pending attacks, in order.
pub open spec fn views_of(s: Seq<GroupAttack>) -> Seq<GroupAttackView> {
    s.map_values(|g: GroupAttack| g@)
}

/// A resolved hit against exactly one target entity.
#[derive(Clone, Copy, Debug, PartialEq, Eq, Structural)]
pub struct SingleAttack {
    pub entity: u64,
    pub damage: AttackDamage,
    pub from: Option<u64>,
}

impl AttackArea {
    /// The area's fields lie within the world's bounds.
    pub open spec fn wf(self) -> bool {
        match self {
            AttackArea::Circle { o, r } => vec_ok(o) && size_ok(r as int),
            AttackArea::HalfCircle { o, r, v } => vec_ok(o) && size_ok(r as int) && is_unit_dir(v),
            AttackArea::Rectangle { o, w, h, v } => vec_ok(o) && size_ok(w as int) && size_ok(
                h as int,
            ) && is_unit_dir(v),
        }
    }

    /// Where an attack's visual effect is anchored: the area's center point.
    pub open spec fn spec_anchor(self) -> Vec2i {
        match self {
            AttackArea::Circle { o, .. } => o,
            AttackArea::HalfCircle { o, .. } => o,
            AttackArea::Rectangle { o, .. } => o,
        }
    }

    pub fn anchor(&self) -> (p: Vec2i)
        ensures
            p == self.spec_anchor(),
    {
        match self {
            AttackArea::Circle { o, .. } => *o,
            AttackArea::HalfCircle { o, .. } => *o,
            AttackArea::Rectangle { o, .. } => *o,
        }
    }
}

/// The area reaches an entity at `p` with collide radius `cr`.
pub open spec fn area_hit(area: AttackArea, p: Vec2i, cr: int) -> bool {
    match area {
        AttackArea::Circle { o, r } => circle_hit(o, r as int, p, cr),
        AttackArea::HalfCircle { o, r, v } => half_circle_hit(o, r as int, v, p, cr),
        AttackArea::Rectangle { o, w, h, v } => rect_hit(o, w as int, h as int, v, p, cr),
    }
}

/// Executable containment test, exact against `area_hit`.
pub fn area_contains(area: &AttackArea, p: Vec2i, cr: i64) -> (hit: bool)
    requires
        area.wf(),
        vec_ok(p),
        size_ok(cr as int),
    ensures
        hit == area_hit(*area, p, cr as int),
{
    match area {
        AttackArea::Circle { o, r } => circle_contains(*o, *r, p, cr),
        AttackArea::HalfCircle { o, r, v } => half_circle_contains(*o, *r, *v, p, cr),
        AttackArea::Rectangle { o, w, h, v } => rect_contains(*o, *w, *h, *v, p, cr),
    }
}

impl AttackDamage {
    /// The number of health points the payload takes.
    pub open spec fn spec_amount(self) -> u32 {
        match self {
            AttackDamage::Physical { damage, .. } => damage,
            AttackDamage::Magical { damage } => damage,
        }
    }

    pub fn amount(&self) -> (d: u32)
        ensures
            d == self.spec_amount(),
    {
        match self {
            AttackDamage::Physical { damage, .. } => *damage,
            AttackDamage::Magical { damage } => *damage,
        }
    }
}

/// How long a spawned attack-effect entity lives before removing itself
/// (milliseconds).
pub const ATTACK_EFFECT_LIFETIME: u32 = 300;

impl GroupAttackView {
    /// A pending attack is well formed when its area is.
    pub open spec fn wf(self) -> bool {
        self.area.wf()
    }
}

/// The attack reaches this entity: the entity is not the attacker, and is
/// either pre-seeded in the attack's target list or carries a footprint the
/// area reaches.
pub open spec fn hit_by(u: Unit, g: GroupAttackView) -> bool {
    &&& Some(u.id) != g.from
    &&& (g.entities.contains(u.id) || (match u.radius {
        Some(r) => area_hit(g.area, u.position.0, r.0 as int),
        None => false,
    }))
}

/// The resolved hits of one pending attack, one per reached entity, in
/// arena order.
pub open spec fn singles_of(units: Seq<Unit>, g: GroupAttackView) -> Seq<SingleAttack>
    decreases units.len(),
{
    if units.len() == 0 {
        Seq::<SingleAttack>::empty()
    } else {
        let rest = singles_of(units.drop_last(), g);
        if hit_by(units.last(), g) {
            rest.push(SingleAttack { entity: units.last().id, damage: g.damage, from: g.from })
        } else {
            rest
        }
    }
}

/// The resolved hits of a whole queue of pending attacks, queue order
/// outermost.
pub open spec fn flatten_singles(units: Seq<Unit>, gs: Seq<GroupAttackView>) -> Seq<SingleAttack>
    decreases gs.len(),
{
    if gs.len() == 0 {
        Seq::<SingleAttack>::empty()
    } else {
        flatten_singles(units, gs.drop_last()) + singles_of(units, gs.last())
    }
}

/// The transient entity spawned for an attack's visual effect: anchored at
/// the area's center, it removes itself after its lifetime; it has no
/// footprint and is never hit.
pub open spec fn spec_effect_unit(id: u64, anchor: Vec2i) -> Unit {
    Unit { removal: Some(ATTACK_EFFECT_LIFETIME), ..Unit::spec_blank(id, anchor) }
}

/// The effect entities of a queue of attacks, with consecutive fresh
/// identifiers from `next_id` on.
pub open spec fn effect_units(gs: Seq<GroupAttackView>, next_id: int) -> Seq<Unit>
    decreases gs.len(),
{
    if gs.len() == 0 {
        Seq::<Unit>::empty()
    } else {
        effect_units(gs.drop_last(), next_id).push(
            spec_effect_unit((next_id + gs.len() - 1) as u64, gs.last().area.spec_anchor()),
        )
    }
}

fn contains_id(v: &Vec<u64>, x: u64) -> (found: bool)
    ensures
        found == v@.contains(x),
{
    let n = v.len();
    let mut i: usize = 0;
    while i < n
        invariant
            i <= n,
            n == v@.len(),
            forall|k: int| 0 <= k < i ==> v@[k] != x,
        decreases n - i,
    {
        if v[i] == x {
            return true;
        }
        i = i + 1;
    }
    false
}

/// Resolve one pending attack against the first `n0` entities of the
/// arena, appending one `SingleAttack` per reached entity.
fn collect_singles(w: &World, n0: usize, g: &GroupAttack, singles: &mut Vec<SingleAttack>)
    requires
        n0 <= w.units@.len(),
        forall|k: int| 0 <= k < n0 ==> (#[trigger] w.units@[k]).wf(),
        g@.wf(),
    ensures
        final(singles)@ == old(singles)@ + singles_of(w.units@.take(n0 as int), g@),
{
    let ghost pre = w.units@.take(n0 as int);
    let mut j: usize = 0;
    while j < n0
        invariant
            j <= n0,
            n0 <= w.units@.len(),
            pre == w.units@.take(n0 as int),
            forall|k: int| 0 <= k < n0 ==> (#[trigger] w.units@[k]).wf(),
            g@.wf(),
            singles@ == old(singles)@ + singles_of(pre.take(j as int), g@),
        decreases n0 - j,
    {
        let u = w.units[j];
        let excluded = match g.from {
            Some(f) => f == u.id,
            None => false,
        };
        if !excluded {
            let seeded = contains_id(&g.entities, u.id);
            let reached = seeded || (match u.radius {
                Some(r) => area_contains(&g.area, u.position.0, r.0),
                None => false,
            });
            if reached {
                singles.push(SingleAttack { entity: u.id, damage: g.damage, from: g.from });
            }
        }
        proof {
            assert(pre.take(j + 1 as int).drop_last() =~= pre.take(j as int));
            assert(pre.take(j + 1 as int).last() == pre[j as int]);
            assert(pre[j as int] == w.units@[j as int]);
            assert(singles@ =~= old(singles)@ + singles_of(pre.take(j + 1 as int), g@));
        }
        j = j + 1;
    }
    proof {
        assert(pre.take(n0 as int) =~= pre);
    }
}

/// Convert every pending area attack into per-entity single attacks, spawn
/// each attack's transient visual-effect entity, and clear the queue: a
/// processed attack is never re-evaluated on a later tick.
pub fn flat_group_damage(w: &mut World, attacks: Vec<GroupAttack>, singles: &mut Vec<SingleAttack>)
    requires
        old(w).wf(),
        old(w).next_id as int + attacks@.len() <= u64::MAX as int,
        forall|k: int| 0 <= k < attacks@.len() ==> (#[trigger] attacks@[k]@).wf(),
    ensures
        final(w).units@ == old(w).units@ + effect_units(
            views_of(attacks@),
            old(w).next_id as int,
        ),
        final(w).next_id as int == old(w).next_id as int + attacks@.len(),
        final(singles)@ == old(singles)@ + flatten_singles(old(w).units@, views_of(attacks@)),
        final(w).wf(),
{
    let ghost orig = w.units@;
    let ghost gviews = views_of(attacks@);
    let n0 = w.units.len();
    let m = attacks.len();
    let mut gi: usize = 0;
    while gi < m
        invariant
            gi <= m,
            m == attacks@.len(),
            n0 == orig.len(),
            gviews == views_of(attacks@),
            old(w).wf(),
            old(w).next_id as int + m <= u64::MAX as int,
            forall|k: int| 0 <= k < m ==> (#[trigger] attacks@[k]@).wf(),
            w.units@ == orig + effect_units(gviews.take(gi as int), old(w).next_id as int),
            w.next_id as int == old(w).next_id as int + gi,
            singles@ == old(singles)@ + flatten_singles(orig, gviews.take(gi as int)),
            w.wf(),
        decreases m - gi,
    {
        let g = &attacks[gi];
        let anchor = g.area.anchor();
        let id = w.next_id;
        let eu = Unit { removal: Some(ATTACK_EFFECT_LIFETIME), ..Unit::blank(id, anchor) };
        proof {
            assert(g@.wf());
        }
        w.push_unit(eu);
        collect_singles(w, n0, g, singles);
        proof {
            assert(gviews.take(gi + 1 as int).drop_last() =~= gviews.take(gi as int));
            assert(gviews.take(gi + 1 as int).last() == gviews[gi as int]);
            assert(w.units@.take(n0 as int) =~= orig);
            assert(w.units@ =~= orig + effect_units(gviews.take(gi + 1 as int), old(
                w,
            ).next_id as int));
            assert(singles@ =~= old(singles)@ + flatten_singles(orig, gviews.take(gi + 1 as int)));
        }
        gi = gi + 1;
    }
    proof {
        assert(gviews.take(m as int) =~= gviews);
    }
}

/// Self-exclusion: an attack with a named attacker never yields a resolved
/// hit against that attacker, no matter how the target was found — by
/// geometry or through the pre-seeded target list.
pub proof fn lemma_single_attacks_exclude_attacker(units: Seq<Unit>, g: GroupAttackView)
    requires
        g.from is Some,
    ensures
        forall|k: int|
            0 <= k < singles_of(units, g).len() ==> (#[trigger] singles_of(units, g)[k]).entity
                != g.from->Some_0,
    decreases units.len(),
{
    if units.len() > 0 {
        lemma_single_attacks_exclude_attacker(units.drop_last(), g);
        let rest = singles_of(units.drop_last(), g);
        assert forall|k: int| 0 <= k < singles_of(units, g).len() implies (#[trigger] singles_of(
            units,
            g,
        )[k]).entity != g.from->Some_0 by {
            if k < rest.len() {
                assert(singles_of(units, g)[k] == rest[k]);
            }
        }
    }
}

/// The resolved hits of one attack name strictly increasing targets, each
/// an entity of the arena.
pub proof fn lemma_singles_strictly_increasing(units: Seq<Unit>, g: GroupAttackView)
    requires
        forall|i: int, j: int| 0 <= i < j < units.len() ==> units[i].id < units[j].id,
    ensures
        forall|k: int|
            0 <= k < singles_of(units, g).len() ==> exists|i: int|
                0 <= i < units.len() && (#[trigger] singles_of(units, g)[k]).entity == units[i].id,
        forall|k1: int, k2: int|
            0 <= k1 < k2 < singles_of(units, g).len() ==> singles_of(units, g)[k1].entity
                < singles_of(units, g)[k2].entity,
    decreases units.len(),
{
    if units.len() > 0 {
        let prev = units.drop_last();
        assert(forall|i: int, j: int| 0 <= i < j < prev.len() ==> prev[i].id < prev[j].id);
        lemma_singles_strictly_increasing(prev, g);
        let rest = singles_of(prev, g);
        assert forall|k: int| 0 <= k < singles_of(units, g).len() implies exists|i: int|
            0 <= i < units.len() && (#[trigger] singles_of(units, g)[k]).entity == units[i].id by {
            if k < rest.len() {
                assert(singles_of(units, g)[k] == rest[k]);
                let i = choose|i: int| 0 <= i < prev.len() && rest[k].entity == prev[i].id;
                assert(units[i] == prev[i]);
            } else {
                assert(singles_of(units, g)[k].entity == units[units.len() - 1].id);
            }
        }
        assert forall|k1: int, k2: int|
            0 <= k1 < k2 < singles_of(units, g).len() implies singles_of(units, g)[k1].entity
            < singles_of(units, g)[k2].entity by {
            if k2 < rest.len() {
                assert(singles_of(units, g)[k1] == rest[k1]);
                assert(singles_of(units, g)[k2] == rest[k2]);
            } else if k2 == rest.len() && hit_by(units.last(), g) {
                assert(singles_of(units, g)[k1] == rest[k1]);
                let i = choose|i: int| 0 <= i < prev.len() && rest[k1].entity == prev[i].id;
                assert(units[i].id < units[units.len() - 1].id);
            }
        }
    }
}

/// Single damage application per resolved hit: one attack yields at most
/// one resolved hit per entity, never a duplicate, however many of its
/// containment conditions the entity satisfies.
pub proof fn lemma_one_single_per_target(units: Seq<Unit>, g: GroupAttackView)
    requires
        forall|i: int, j: int| 0 <= i < j < units.len() ==> units[i].id < units[j].id,
    ensures
        forall|k1: int, k2: int|
            0 <= k1 < k2 < singles_of(units, g).len() ==> singles_of(units, g)[k1].entity
                != singles_of(units, g)[k2].entity,
{
    lemma_singles_strictly_increasing(units, g);
}

/// One entity after one resolved hit: the target's pool shrinks by
/// `min(damage, now)`, everything else is untouched.
pub open spec fn spec_damaged_unit(u: Unit, a: SingleAttack) -> Unit {
    if u.id == a.entity && u.health is Some {
        Unit {
            health: Some(
                Health {
                    now: damaged(u.health->Some_0.now, a.damage.spec_amount()),
                    max: u.health->Some_0.max,
                },
            ),
            ..u
        }
    } else {
        u
    }
}

pub open spec fn apply_single(units: Seq<Unit>, a: SingleAttack) -> Seq<Unit> {
    units.map_values(|u: Unit| spec_damaged_unit(u, a))
}

/// The arena after a queue of resolved hits lands, in order.
pub open spec fn apply_singles(units: Seq<Unit>, singles: Seq<SingleAttack>) -> Seq<Unit>
    decreases singles.len(),
{
    if singles.len() == 0 {
        units
    } else {
        apply_singles(apply_single(units, singles.first()), singles.drop_first())
    }
}

/// Landing one more hit after a queue equals landing the queue, then the
/// hit.
pub proof fn lemma_apply_singles_push(units: Seq<Unit>, singles: Seq<SingleAttack>, a: SingleAttack)
    ensures
        apply_singles(units, singles.push(a)) == apply_single(apply_singles(units, singles), a),
    decreases singles.len(),
{
    if singles.len() == 0 {
        assert(singles.push(a).first() == a);
        assert(singles.push(a).drop_first() =~= Seq::<SingleAttack>::empty());
        assert(apply_singles(apply_single(units, a), singles.push(a).drop_first())
            == apply_single(units, a));
        assert(apply_singles(units, singles) == units);
    } else {
        assert(singles.push(a).drop_first() =~= singles.drop_first().push(a));
        assert(singles.push(a).first() == singles.first());
        lemma_apply_singles_push(apply_single(units, singles.first()), singles.drop_first(), a);
    }
}

/// Land one resolved hit on its target.
fn apply_one_single(w: &mut World, a: SingleAttack)
    requires
        old(w).wf(),
    ensures
        final(w).units@ == apply_single(old(w).units@, a),
        final(w).next_id == old(w).next_id,
        final(w).wf(),
{
    let n = w.units.len();
    let d = a.damage.amount();
    let mut i: usize = 0;
    while i < n
        invariant
            i <= n,
            n == w.units@.len(),
            n == old(w).units@.len(),
            w.next_id == old(w).next_id,
            old(w).wf(),
            d == a.damage.spec_amount(),
            forall|j: int| i <= j < n ==> w.units@[j] == old(w).units@[j],
            forall|j: int| 0 <= j < i ==> w.units@[j] == spec_damaged_unit(old(w).units@[j], a),
        decreases n - i,
    {
        let u = w.units[i];
        if u.id == a.entity {
            match u.health {
                Some(h) => {
                    let now = if d < h.now {
                        h.now - d
                    } else {
                        0
                    };
                    w.units.set(i, Unit { health: Some(Health { now, max: h.max }), ..u });
                },
                None => {},
            }
        }
        i = i + 1;
    }
    proof {
        assert(w.units@ =~= apply_single(old(w).units@, a));
        assert forall|k: int| 0 <= k < w.units@.len() implies (#[trigger] w.units@[k]).wf() by {
            assert(old(w).units@[k].wf());
            assert(w.units@[k] == spec_damaged_unit(old(w).units@[k], a));
        }
    }
}

/// Perform every resolved hit, in order.
pub fn recieve_damage(w: &mut World, singles: Vec<SingleAttack>)
    requires
        old(w).wf(),
    ensures
        final(w).units@ == apply_singles(old(w).units@, singles@),
        final(w).next_id == old(w).next_id,
        final(w).wf(),
{
    let m = singles.len();
    let mut k: usize = 0;
    while k < m
        invariant
            m == singles@.len(),
            k <= m,
            w.units@ == apply_singles(old(w).units@, singles@.take(k as int)),
            w.next_id == old(w).next_id,
            w.wf(),
        decreases m - k,
    {
        apply_one_single(w, singles[k]);
        proof {
            assert(singles@.take(k + 1 as int) =~= singles@.take(k as int).push(
                singles@[k as int],
            ));
            lemma_apply_singles_push(old(w).units@, singles@.take(k as int), singles@[k as int]);
        }
        k = k + 1;
    }
    proof {
        assert(singles@.take(m as int) =~= singles@);
    }
}

} // verus!
