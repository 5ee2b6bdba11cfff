//! Units: hit points, collision radius, invulnerability windows, and the
//! component sets that spawn a unit.

use vstd::prelude::*;

use crate::allegiance::Faction;
use crate::kinematic::{CrossSectionSize, SymmeticFullKinematic};

verus! {

/// Tags an entity as a unit.
#[derive(Debug, Clone, Copy, PartialEq, Eq, Structural)]
pub struct Unit;

/// Hit points: the current value and the maximum.
#[derive(Debug, Clone, Copy, PartialEq, Eq, Structural)]
pub struct HP {
    pub value: i64,
    pub max: i64,
}

impl HP {
    /// Hit points with the given current value and maximum.
    pub fn new(value: i64, max: i64) -> (r: HP)
        ensures
            r.value == value,
            r.max == max,
    {
        HP { value, max }
    }

    /// Full hit points.
    pub fn full(max: i64) -> (r: HP)
        ensures
            r.value == max,
            r.max == max,
    {
        HP { value: max, max }
    }

    /// A unit is dead exactly when its hit points are spent.
    pub fn is_dead(&self) -> (r: bool)
        ensures
            r == (self.value <= 0),
    {
        self.value <= 0
    }

    /// A unit is alive exactly when it is not dead.
    pub fn is_alive(&self) -> (r: bool)
        ensures
            r == (self.value > 0),
    {
        self.value > 0
    }

    /// Restore hit points, never beyond the maximum.
    pub fn heal(&mut self, amount: i64)
        requires
            -0x7fff_ffff_ffff_ffff <= old(self).value + amount <= 0x7fff_ffff_ffff_ffff,
        ensures
            final(self).value == if old(self).value + amount <= old(self).max {
                old(self).value + amount
            } else {
                old(self).max as int
            },
            final(self).max == old(self).max,
    {
        let healed: i64 = self.value + amount;
        self.value = if healed <= self.max {
            healed
        } else {
            self.max
        };
    }

    /// Restore hit points to the maximum.
    pub fn refill(&mut self)
        ensures
            final(self).value == old(self).max,
            final(self).max == old(self).max,
    {
        self.value = self.max;
    }
}

/// The collision radius of a unit.
#[derive(Debug, Clone, Copy, PartialEq, Eq, Structural)]
pub struct Radius(pub i64);

/// A window during which a unit cannot be hit, counted down each tick.
#[derive(Debug, Clone, Copy, PartialEq, Eq, Structural)]
pub struct Invulnerability {
    pub remaining: u64,
}

impl Invulnerability {
    /// A window of the given duration, in fixed-point seconds.
    pub fn new(duration: u64) -> (r: Invulnerability)
        ensures
            r.remaining == duration,
    {
        Invulnerability { remaining: duration }
    }
}

impl Default for Invulnerability {
    /// An already-spent window.
    fn default() -> (r: Invulnerability)
        ensures
            r.remaining == 0,
    {
        Invulnerability { remaining: 0 }
    }
}

/// Count down every invulnerability window by one tick, stopping at zero.
pub fn tick_down_invulnerability(windows: &mut Vec<Invulnerability>, dt: u64)
    ensures
        final(windows)@.len() == old(windows)@.len(),
        forall|i: int|
            0 <= i < old(windows)@.len() ==> (#[trigger] final(windows)@[i]).remaining == if old(
                windows,
            )@[i].remaining >= dt {
                (old(windows)@[i].remaining - dt) as u64
            } else {
                0u64
            },
{
    let n: usize = windows.len();
    let mut idx: usize = 0;
    while idx < n
        invariant
            n == windows@.len(),
            windows@.len() == old(windows)@.len(),
            forall|i: int| idx <= i < n ==> windows@[i] == old(windows)@[i],
            forall|i: int|
                0 <= i < idx ==> (#[trigger] windows@[i]).remaining == if old(
                    windows,
                )@[i].remaining >= dt {
                    (old(windows)@[i].remaining - dt) as u64
                } else {
                    0u64
                },
        decreases n - idx,
    {
        let w: Invulnerability = windows[idx];
        let remaining: u64 = if w.remaining >= dt {
            w.remaining - dt
        } else {
            0
        };
        windows[idx] = Invulnerability { remaining };
        idx += 1;
    }
}

/// The component set of a unit that carries no group identity.
#[derive(Debug, Clone, Copy, PartialEq, Eq, Structural)]
pub struct UnitBundleWithoutFaction {
    pub unit: Unit,
    pub hp: HP,
    pub invulnerability: Invulnerability,
    pub radius: Radius,
    pub kinematic: SymmeticFullKinematic,
}

impl UnitBundleWithoutFaction {
    /// A unit with the given hit points and radius; its symmetric
    /// cross-section is its diameter, twice the radius.
    pub fn new(hp: HP, radius: Radius) -> (r: UnitBundleWithoutFaction)
        requires
            0 <= 2 * radius.0 <= 0x7fff_ffff_ffff_ffff,
        ensures
            r.hp == hp,
            r.radius == radius,
            r.invulnerability.remaining == 0,
            r.kinematic.cross_section_size.0 == 2 * radius.0,
            r.kinematic.position.0.x == 0 && r.kinematic.position.0.y == 0,
            r.kinematic.velocity.0.x == 0 && r.kinematic.velocity.0.y == 0,
            (r.kinematic.acceleration.0.x == 0 && r.kinematic.acceleration.0.y == 0),
            r.kinematic.dampening.max_acc == 0,
            r.kinematic.mass.0 == 1000,
            r.kinematic.experience_drag.coeff == 1000,
    {
        let base: SymmeticFullKinematic = Default::default();
        UnitBundleWithoutFaction {
            unit: Unit,
            hp,
            invulnerability: Default::default(),
            radius,
            kinematic: SymmeticFullKinematic {
                cross_section_size: CrossSectionSize(2 * radius.0),
                ..base
            },
        }
    }
}

/// The component set of a unit that carries a group identity.
#[derive(Debug, Clone, Copy, PartialEq, Eq, Structural)]
pub struct UnitBundleWithFaction {
    pub unit: UnitBundleWithoutFaction,
    pub faction: Faction,
}

impl UnitBundleWithFaction {
    /// A unit of the given faction, hit points and radius.
    pub fn new(faction: Faction, hp: HP, radius: Radius) -> (r: UnitBundleWithFaction)
        requires
            0 <= 2 * radius.0 <= 0x7fff_ffff_ffff_ffff,
        ensures
            r.faction == faction,
            r.unit.hp == hp,
            r.unit.radius == radius,
            r.unit.kinematic.cross_section_size.0 == 2 * radius.0,
    {
        UnitBundleWithFaction { unit: UnitBundleWithoutFaction::new(hp, radius), faction }
    }
}

/// Notification payload: the unit with this index spawned.
#[derive(Debug, Clone, Copy, PartialEq, Eq, Structural)]
pub struct UnitSpawned(pub usize);

/// Notification payload: the unit with this index died.
#[derive(Debug, Clone, Copy, PartialEq, Eq, Structural)]
pub struct UnitDied(pub usize);

} // verus!
