//! The entity arena: the shared world every pipeline stage reads and writes.
//!
//! Instead of dynamically attached marker components, a `Unit` carries every
//! component the combat core knows as an explicit field: tags are `bool`s,
//! optional components and timers are `Option`s. Entities keep a stable,
//! strictly increasing identifier; despawning removes the row, spawning
//! appends one, so arena order always equals identifier order.

use vstd::prelude::*;
use crate::attack::AttackDamage;
use crate::geom::{
    Vec2i, Position, Velocity, CollideRadius, vec_ok, size_ok, VEL_LIMIT,
};
use crate::health::Health;
use crate::soul::SoulPower;

verus! {

/// The player's combo state machine position. Exactly one such state is
/// held per controlled entity; the rest state is `Stand`.
#[derive(Clone, Copy, Debug, PartialEq, Eq, Structural)]
pub enum PlayerState {
    ShieldAttackA,
    ShieldAttackAA,
    ShieldAttackAB,
    ShieldAttackB,
    ShieldAttackBB,
    ShieldAttackBBB,
    ShieldAssault,
    ShieldAssaultA,
    ShieldAssaultB,
    Stand,
}

impl Default for PlayerState {
    /// The rest state is the default.
    fn default() -> (s: Self)
        ensures
            s == PlayerState::Stand,
    {
        PlayerState::Stand
    }
}

/// Which attack a combo-prefix window records.
#[derive(Clone, Copy, Debug, PartialEq, Eq, Structural)]
pub enum ShieldAttackType {
    A,
    AA,
    AB,
    B,
    BB,
    BBB,
}

/// A live combo-continuation window: the recorded prefix and the
/// milliseconds left until it expires.
#[derive(Clone, Copy, Debug, PartialEq, Eq, Structural)]
pub struct ShieldAttackPrefix {
    pub kind: ShieldAttackType,
    pub remaining: u32,
}

/// What makes an entity a projectile: its owner (never hit by the bullet)
/// and the damage payload its impact releases over a circular area.
#[derive(Clone, Copy, Debug, PartialEq, Eq, Structural)]
pub struct BulletProps {
    pub owner: Option<u64>,
    pub damage: Option<AttackDamage>,
}

/// One entity of the arena, with every component the combat core uses.
#[derive(Clone, Copy, Debug, PartialEq, Eq, Structural)]
pub struct Unit {
    /// Stable identifier; strictly increasing in arena order.
    pub id: u64,
    pub position: Position,
    pub velocity: Velocity,
    /// Circular hit/hurt footprint; entities without one are never hit.
    pub radius: Option<CollideRadius>,
    pub health: Option<Health>,
    /// Health is floored to 1 by the post-damage clamp: the entity cannot die.
    pub lock_health: bool,
    pub soul: Option<SoulPower>,
    /// Combo machine position; only controlled entities carry one.
    pub state: Option<PlayerState>,
    /// The entity obeys directional input.
    pub controlling: bool,
    pub monster: bool,
    /// The entity is in its counter-attack stance.
    pub counter_attack: bool,
    /// The entity will be struck by a triggered counter attack.
    pub counter_attack_target: bool,
    /// Manual directional control is suspended (during an assault).
    pub wasd_disabled: bool,
    pub bullet: Option<BulletProps>,
    /// Milliseconds before the entity may attack again.
    pub attack_cool_down: Option<u32>,
    /// Milliseconds before the entity may assault again.
    pub assault_cool_down: Option<u32>,
    /// Open combo-continuation window.
    pub prefix: Option<ShieldAttackPrefix>,
    /// Milliseconds left of the running attack animation; on completion the
    /// attack is emitted.
    pub animation: Option<u32>,
    /// Milliseconds left of the running assault.
    pub assault: Option<u32>,
    /// Milliseconds after which the entity removes itself (transient
    /// attack-effect entities).
    pub removal: Option<u32>,
    /// Marked by the death check, swept by the dead-removal stage.
    pub dead: bool,
}

impl Unit {
    /// An inert entity at `p`: no components beyond position, no tags.
    pub fn blank(id: u64, p: Vec2i) -> (u: Unit)
        ensures
            u == Unit::spec_blank(id, p),
    {
        Unit {
            id,
            position: Position(p),
            velocity: Velocity(Vec2i { x: 0, y: 0 }),
            radius: None,
            health: None,
            lock_health: false,
            soul: None,
            state: None,
            controlling: false,
            monster: false,
            counter_attack: false,
            counter_attack_target: false,
            wasd_disabled: false,
            bullet: None,
            attack_cool_down: None,
            assault_cool_down: None,
            prefix: None,
            animation: None,
            assault: None,
            removal: None,
            dead: false,
        }
    }

    pub open spec fn spec_blank(id: u64, p: Vec2i) -> Unit {
        Unit {
            id,
            position: Position(p),
            velocity: Velocity(Vec2i { x: 0, y: 0 }),
            radius: None,
            health: None,
            lock_health: false,
            soul: None,
            state: None,
            controlling: false,
            monster: false,
            counter_attack: false,
            counter_attack_target: false,
            wasd_disabled: false,
            bullet: None,
            attack_cool_down: None,
            assault_cool_down: None,
            prefix: None,
            animation: None,
            assault: None,
            removal: None,
            dead: false,
        }
    }

    /// The player archetype: controlled, with a footprint, full pools, the
    /// combo machine at rest.
    pub open spec fn spec_player(id: u64, p: Vec2i) -> Unit {
        Unit {
            radius: Some(CollideRadius(50_000)),
            health: Some(Health { now: 200u32, max: 200u32 }),
            soul: Some(SoulPower { now: 2000u32, max: 2000u32 }),
            state: Some(PlayerState::Stand),
            controlling: true,
            ..Unit::spec_blank(id, p)
        }
    }

    /// The monster archetype: a footprint and a full health pool.
    pub open spec fn spec_monster(id: u64, p: Vec2i, hp: u32) -> Unit {
        Unit {
            radius: Some(CollideRadius(50_000)),
            health: Some(Health { now: hp, max: hp }),
            monster: true,
            ..Unit::spec_blank(id, p)
        }
    }

    /// Bounds and invariants of one entity: position and footprint within
    /// the world's limits, pools within their maxima, and a locked health
    /// pool large enough to hold the one point the clamp guarantees.
    pub open spec fn wf(self) -> bool {
        &&& vec_ok(self.position.0)
        &&& -(VEL_LIMIT as int) <= self.velocity.0.x <= VEL_LIMIT as int
        &&& -(VEL_LIMIT as int) <= self.velocity.0.y <= VEL_LIMIT as int
        &&& match self.radius {
            Some(r) => size_ok(r.0 as int),
            None => true,
        }
        &&& match self.health {
            Some(h) => h.wf(),
            None => true,
        }
        &&& match self.soul {
            Some(s) => s.wf(),
            None => true,
        }
        &&& (self.lock_health ==> match self.health {
            Some(h) => h.max >= 1,
            None => true,
        })
    }
}

/// The world: an arena of entities plus the next fresh identifier.
#[derive(Debug)]
pub struct World {
    pub units: Vec<Unit>,
    pub next_id: u64,
}

/// The index of the first entity under directional control: the trigger
/// stages of the pipeline act on this entity.
pub open spec fn first_controlling(units: Seq<Unit>) -> Option<int>
    decreases units.len(),
{
    if units.len() == 0 {
        None
    } else if units[0].controlling {
        Some(0int)
    } else {
        match first_controlling(units.drop_first()) {
            Some(i) => Some(i + 1),
            None => None,
        }
    }
}

/// `first_controlling` indeed names the first controlled entity.
pub proof fn lemma_first_controlling(units: Seq<Unit>)
    ensures
        match first_controlling(units) {
            Some(i) => {
                &&& 0 <= i < units.len()
                &&& units[i].controlling
                &&& forall|j: int| 0 <= j < i ==> !(#[trigger] units[j]).controlling
            },
            None => forall|j: int| 0 <= j < units.len() ==> !(#[trigger] units[j]).controlling,
        },
    decreases units.len(),
{
    if units.len() > 0 && !units[0].controlling {
        lemma_first_controlling(units.drop_first());
        assert(forall|j: int|
            1 <= j < units.len() ==> units.drop_first()[j - 1] == #[trigger] units[j]);
    }
}

/// Identifiers are strictly increasing in arena order and below `next_id`.
pub open spec fn ids_ok(units: Seq<Unit>, next_id: u64) -> bool {
    &&& forall|i: int, j: int|
        0 <= i < j < units.len() ==> #[trigger] units[i].id < #[trigger] units[j].id
    &&& forall|i: int| 0 <= i < units.len() ==> #[trigger] units[i].id < next_id
}

impl World {
    pub open spec fn wf(self) -> bool {
        &&& forall|i: int| 0 <= i < self.units@.len() ==> (#[trigger] self.units@[i]).wf()
        &&& ids_ok(self.units@, self.next_id)
    }

    pub fn new() -> (w: World)
        ensures
            w.units@ =~= Seq::<Unit>::empty(),
            w.next_id == 0,
            w.wf(),
    {
        World { units: Vec::new(), next_id: 0 }
    }

    /// Append a new entity built from a fresh identifier by `f`; here the
    /// caller passes the already-built row, whose `id` must be `next_id`.
    pub fn push_unit(&mut self, u: Unit)
        requires
            u.id == old(self).next_id,
            old(self).next_id < u64::MAX,
        ensures
            final(self).units@ == old(self).units@.push(u),
            final(self).next_id == old(self).next_id + 1,
            old(self).wf() && u.wf() ==> final(self).wf(),
    {
        self.units.push(u);
        self.next_id = self.next_id + 1;
        proof {
            let units = self.units@;
            let prev = old(self).units@;
            assert(forall|i: int| 0 <= i < prev.len() ==> units[i] == prev[i]);
        }
    }

    /// Spawn the player archetype at `p`: controlled, with a footprint,
    /// full health and soul pools, and the combo machine at rest. Returns
    /// the new entity's identifier.
    pub fn spawn_player(&mut self, p: Vec2i) -> (id: u64)
        requires
            old(self).wf(),
            old(self).next_id < u64::MAX,
            vec_ok(p),
        ensures
            id == old(self).next_id,
            final(self).units@ == old(self).units@.push(Unit::spec_player(id, p)),
            final(self).next_id == old(self).next_id + 1,
            final(self).wf(),
    {
        let id = self.next_id;
        let u = Unit {
            radius: Some(CollideRadius(50_000)),
            health: Some(Health { now: 200, max: 200 }),
            soul: Some(SoulPower { now: 2000, max: 2000 }),
            state: Some(PlayerState::Stand),
            controlling: true,
            ..Unit::blank(id, p)
        };
        self.push_unit(u);
        id
    }

    /// Spawn the monster archetype at `p` with a `hp`-point health pool.
    /// Returns the new entity's identifier.
    pub fn spawn_monster(&mut self, p: Vec2i, hp: u32) -> (id: u64)
        requires
            old(self).wf(),
            old(self).next_id < u64::MAX,
            vec_ok(p),
        ensures
            id == old(self).next_id,
            final(self).units@ == old(self).units@.push(Unit::spec_monster(id, p, hp)),
            final(self).next_id == old(self).next_id + 1,
            final(self).wf(),
    {
        let id = self.next_id;
        let u = Unit {
            radius: Some(CollideRadius(50_000)),
            health: Some(Health { now: hp, max: hp }),
            monster: true,
            ..Unit::blank(id, p)
        };
        self.push_unit(u);
        id
    }

    /// The first entity under directional control, if any: the pipeline's
    /// trigger stages act on it.
    pub fn find_controlling(&self) -> (r: Option<usize>)
        ensures
            match r {
                Some(i) => {
                    &&& i < self.units@.len()
                    &&& self.units@[i as int].controlling
                    &&& forall|j: int| 0 <= j < i ==> !(#[trigger] self.units@[j]).controlling
                    &&& first_controlling(self.units@) == Some(i as int)
                },
                None => first_controlling(self.units@) is None,
            },
    {
        proof {
            lemma_first_controlling(self.units@);
        }
        let n = self.units.len();
        let mut i: usize = 0;
        while i < n
            invariant
                i <= n,
                n == self.units@.len(),
                forall|j: int| 0 <= j < i ==> !(#[trigger] self.units@[j]).controlling,
            decreases n - i,
        {
            if self.units[i].controlling {
                proof {
                    lemma_first_controlling(self.units@);
                }
                return Some(i);
            }
            i = i + 1;
        }
        None
    }
}

} // verus!
