//! Towers: how they pick a target and when they fire.

use vstd::prelude::*;
use crate::entity::{lookup, spec_lookup, Entity, UnitState};
use crate::geometry::{spec_within, within, Vec3};
use crate::projectile::{ProjectilePrefab, ProjectileTarget};

verus! {

/// The reach of a tower: it sees the units closer than `range`.
#[derive(Clone, Copy, Debug, PartialEq, Eq, Structural)]
pub struct Targetter {
    pub range: u32,
}

impl Default for Targetter {
    fn default() -> (r: Targetter)
        ensures
            r.range == 10_000,
    {
        Targetter { range: 10_000 }
    }
}

/// The unit that a tower is engaging: a weak reference, looked up again at
/// every attempt to fire.
#[derive(Clone, Copy, Debug, PartialEq, Eq, Structural)]
pub struct Target(pub Entity);

/// A tower: what it fires, how long it rests between two shots, how high
/// above its foot the shot leaves, and the instant after which it is ready.
#[derive(Clone, Copy, Debug, PartialEq, Eq, Structural)]
pub struct Tower {
    pub projectile: ProjectilePrefab,
    pub cooldown: u64,
    pub height: i32,
    pub next: u64,
}

impl Default for Tower {
    fn default() -> (r: Tower)
        ensures
            r == (Tower {
                projectile: ProjectilePrefab::Arrow,
                cooldown: 1_000_000_000,
                height: 1000,
                next: 0,
            }),
    {
        Tower { projectile: ProjectilePrefab::Arrow, cooldown: 1_000_000_000, height: 1000, next: 0 }
    }
}

/// What a tower does at one attempt to fire.
#[derive(Clone, Copy, Debug, PartialEq, Eq, Structural)]
pub enum Shot {
    /// The tower is still resting; its target stays as it is.
    Resting,
    /// The target is gone or out of reach: the tower forgets it.
    Forget,
    /// The tower fires the projectile `prefab` as `flight` describes.
    Fire { prefab: ProjectilePrefab, flight: ProjectileTarget },
}

/// Whether the unit at index `i` is the one a tower at `position` picks: it
/// is in reach, no unit in reach has come further, and of those that have
/// come as far it is the first.
pub open spec fn is_pick(position: Vec3, range: u32, units: Seq<UnitState>, i: int) -> bool {
    &&& 0 <= i < units.len()
    &&& spec_within(position, units[i].position, range)
    &&& forall|j: int|
        0 <= j < units.len() && spec_within(position, (#[trigger] units[j]).position, range)
            ==> units[j].progress <= units[i].progress
    &&& forall|j: int|
        0 <= j < i && spec_within(position, (#[trigger] units[j]).position, range)
            ==> units[j].progress < units[i].progress
}

/// A tower has one pick at most: two units that both pass for the pick are
/// the same unit.
pub proof fn lemma_pick_unique(position: Vec3, range: u32, units: Seq<UnitState>, i: int, j: int)
    requires
        is_pick(position, range, units, i),
        is_pick(position, range, units, j),
    ensures
        i == j,
{
}

/// Picks a target for a tower at `position`: of the units in reach the one
/// that has come furthest along its path, and of several that have come
/// equally far the first. `None` means that no unit is in reach.
pub fn find_target(position: Vec3, targetter: &Targetter, units: &Vec<UnitState>) -> (r: Option<Target>)
    ensures
        match r {
            Some(target) => exists|i: int|
                is_pick(position, targetter.range, units@, i) && target.0 == units@[i].entity,
            None => forall|j: int|
                0 <= j < units.len() ==> !spec_within(
                    position,
                    (#[trigger] units@[j]).position,
                    targetter.range,
                ),
        },
{
    let range = targetter.range;
    let mut best: Option<usize> = None;
    let mut i: usize = 0;
    while i < units.len()
        invariant
            i <= units.len(),
            match best {
                Some(b) => b < i && is_pick(position, range, units@.subrange(0, i as int), b as int),
                None => forall|j: int|
                    0 <= j < i ==> !spec_within(position, (#[trigger] units@[j]).position, range),
            },
        decreases units.len() - i,
    {
        let unit = units[i];
        if within(&position, &unit.position, range) {
            match best {
                Some(b) => {
                    if unit.progress > units[b].progress {
                        best = Some(i);
                    }
                },
                None => {
                    best = Some(i);
                },
            }
        }
        i += 1;
    }
    assert(units@.subrange(0, i as int) == units@);
    match best {
        Some(b) => Some(Target(units[b].entity)),
        None => None,
    }
}

/// Target acquisition for one tower: a tower that is engaging a target
/// keeps it, and only a tower without one picks a target, as `find_target`
/// does.
pub fn acquire_target(
    current: Option<Target>,
    position: Vec3,
    targetter: &Targetter,
    units: &Vec<UnitState>,
) -> (r: Option<Target>)
    ensures
        current is Some ==> r == current,
        current is None ==> (match r {
            Some(target) => exists|i: int|
                is_pick(position, targetter.range, units@, i) && target.0 == units@[i].entity,
            None => forall|j: int|
                0 <= j < units.len() ==> !spec_within(
                    position,
                    (#[trigger] units@[j]).position,
                    targetter.range,
                ),
        }),
{
    match current {
        Some(target) => Some(target),
        None => find_target(position, targetter, units),
    }
}

/// A direction in the horizontal plane, in thousandths of a world unit.
#[derive(Clone, Copy, Debug, PartialEq, Eq, Structural)]
pub struct Heading {
    pub x: i64,
    pub z: i64,
}

/// The direction in which a tower at `position` turns to face its target:
/// from the tower to where the target stands, heights left aside. `None`
/// where the target is gone; the tower then stays as it is.
pub fn look_at_target(target: &Target, position: Vec3, units: &Vec<UnitState>) -> (r: Option<Heading>)
    ensures
        r == (match spec_lookup(units@, target.0) {
            Some(i) => Some(
                Heading {
                    x: (units@[i].position.x - position.x) as i64,
                    z: (units@[i].position.z - position.z) as i64,
                },
            ),
            None => None::<Heading>,
        }),
{
    match lookup(units, target.0) {
        Some(i) => {
            let stands = units[i].position;
            Some(
                Heading {
                    x: stands.x as i64 - position.x as i64,
                    z: stands.z as i64 - position.z as i64,
                },
            )
        },
        None => None,
    }
}

impl Tower {
    /// What an attempt to fire at the instant `now` comes to, for a tower at
    /// `position` whose upward direction is `up`, in thousandths.
    pub open spec fn spec_shot(
        self,
        targetter: Targetter,
        target: Target,
        position: Vec3,
        up: Vec3,
        units: Seq<UnitState>,
        now: u64,
    ) -> Shot {
        if self.next < now {
            match spec_lookup(units, target.0) {
                Some(i) => if spec_within(position, units[i].position, targetter.range) {
                    Shot::Fire {
                        prefab: self.projectile,
                        flight: ProjectileTarget {
                            entity: units[i].entity,
                            target: units[i].position,
                            pos: position.spec_offset(up, self.height),
                        },
                    }
                } else {
                    Shot::Forget
                },
                None => Shot::Forget,
            }
        } else {
            Shot::Resting
        }
    }

    /// One attempt to fire. A tower fires only once the clock has passed
    /// its ready time, and only at a target that is still alive and in
    /// reach; it then rests for its cooldown. A target that is gone or out
    /// of reach is forgotten.
    pub fn shoot(
        &mut self,
        targetter: &Targetter,
        target: &Target,
        position: Vec3,
        up: Vec3,
        units: &Vec<UnitState>,
        now: u64,
    ) -> (shot: Shot)
        ensures
            shot == old(self).spec_shot(*targetter, *target, position, up, units@, now),
            shot is Fire ==> *final(self) == (Tower {
                next: now.saturating_add(old(self).cooldown),
                ..*old(self)
            }),
            !(shot is Fire) ==> *final(self) == *old(self),
    {
        if self.next < now {
            match lookup(units, target.0) {
                Some(i) => {
                    let unit = units[i];
                    if within(&position, &unit.position, targetter.range) {
                        self.next = now.saturating_add(self.cooldown);
                        Shot::Fire {
                            prefab: self.projectile,
                            flight: ProjectileTarget::new(
                                unit.entity,
                                unit.position,
                                position.offset(&up, self.height),
                            ),
                        }
                    } else {
                        Shot::Forget
                    }
                },
                None => Shot::Forget,
            }
        } else {
            Shot::Resting
        }
    }
}

} // verus!
