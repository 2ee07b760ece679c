//! Entities as the combat systems see them: an identifier, a place, a
//! progress along the path and a health value.

use vstd::prelude::*;
use crate::geometry::Vec3;
use crate::unit::Health;

verus! {

/// An identifier of a simulated entity. A stored identifier is a weak
/// reference: it has to be looked up again each time it is used.
#[derive(Clone, Copy, Debug, PartialEq, Eq, Hash, Structural)]
pub struct Entity(pub u64);

/// One living unit, as read from the world at the start of a pass.
#[derive(Clone, Copy, Debug, PartialEq, Eq, Structural)]
pub struct UnitState {
    pub entity: Entity,
    pub position: Vec3,
    /// How far along its path the unit has come.
    pub progress: u64,
    pub health: Health,
}

/// The index of the first unit at or after `from` that is `entity`, or the
/// length of `units` where there is none.
pub open spec fn first_index_from(units: Seq<UnitState>, entity: Entity, from: int) -> int
    decreases units.len() - from,
{
    if from < 0 || from >= units.len() {
        units.len() as int
    } else if units[from].entity == entity {
        from
    } else {
        first_index_from(units, entity, from + 1)
    }
}

/// The index under which `entity` is found among `units`, if it is there.
pub open spec fn spec_lookup(units: Seq<UnitState>, entity: Entity) -> Option<int> {
    let i = first_index_from(units, entity, 0);
    if i < units.len() {
        Some(i)
    } else {
        None
    }
}

/// `first_index_from` names a unit that is `entity` and skips none that is.
pub proof fn lemma_first_index_from(units: Seq<UnitState>, entity: Entity, from: int)
    requires
        0 <= from <= units.len(),
    ensures
        from <= first_index_from(units, entity, from) <= units.len(),
        first_index_from(units, entity, from) < units.len() ==> units[first_index_from(
            units,
            entity,
            from,
        )].entity == entity,
        forall|j: int|
            from <= j < first_index_from(units, entity, from) ==> (#[trigger] units[j]).entity
                != entity,
    decreases units.len() - from,
{
    if from < units.len() && units[from].entity != entity {
        lemma_first_index_from(units, entity, from + 1);
    }
}

/// Resolves a weak reference: the index of `entity` among `units`, or `None`
/// where the entity is gone.
pub fn lookup(units: &Vec<UnitState>, entity: Entity) -> (r: Option<usize>)
    ensures
        match r {
            Some(i) => spec_lookup(units@, entity) == Some(i as int),
            None => spec_lookup(units@, entity) is None,
        },
{
    let mut i: usize = 0;
    while i < units.len()
        invariant
            i <= units.len(),
            first_index_from(units@, entity, 0) == first_index_from(units@, entity, i as int),
        decreases units.len() - i,
    {
        if units[i].entity == entity {
            return Some(i);
        }
        i += 1;
    }
    None
}

} // verus!
