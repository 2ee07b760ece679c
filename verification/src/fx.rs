//! Effects and the timers that remove them.

use vstd::prelude::*;
use crate::entity::Entity;

verus! {

/// The effects that can be shown.
#[derive(Clone, Copy, Debug, PartialEq, Eq, Structural)]
pub enum FxLibrary {
    Death,
    Explosion,
}

impl Default for FxLibrary {
    fn default() -> (r: FxLibrary)
        ensures
            r == FxLibrary::Death,
    {
        FxLibrary::Death
    }
}

impl FxLibrary {
    /// The scene that holds the effect.
    pub fn path(&self) -> (r: &'static str)
        ensures
            r@ == (match self {
                FxLibrary::Death => "scenes/DeathFx.scn.ron"@,
                FxLibrary::Explosion => "scenes/Explosion.scn.ron"@,
            }),
    {
        match self {
            FxLibrary::Death => "scenes/DeathFx.scn.ron",
            FxLibrary::Explosion => "scenes/Explosion.scn.ron",
        }
    }
}

/// The instant after which an entity is removed.
#[derive(Clone, Copy, Debug, PartialEq, Eq, Structural)]
pub struct DespawnTimer(pub u64);

impl Default for DespawnTimer {
    fn default() -> (r: DespawnTimer)
        ensures
            r == DespawnTimer(0),
    {
        DespawnTimer(0)
    }
}

impl DespawnTimer {
    /// Whether the timer has run out at the instant `now`: the clock has
    /// passed it.
    pub open spec fn spec_expired(self, now: u64) -> bool {
        self.0 < now
    }

    /// Whether the timer has run out at the instant `now`.
    pub fn expired(&self, now: u64) -> (r: bool)
        ensures
            r == self.spec_expired(now),
    {
        self.0 < now
    }
}

/// The entities among `timers` whose timer has run out at the instant
/// `now`, in their order.
pub open spec fn spec_despawn_timer(timers: Seq<(Entity, DespawnTimer)>, now: u64) -> Seq<Entity> {
    timers.filter(|t: (Entity, DespawnTimer)| t.1.spec_expired(now)).map_values(
        |t: (Entity, DespawnTimer)| t.0,
    )
}

/// The entities to remove at the instant `now`: those whose timer the
/// clock has passed.
pub fn despawn_timer(timers: &Vec<(Entity, DespawnTimer)>, now: u64) -> (r: Vec<Entity>)
    ensures
        r@ == spec_despawn_timer(timers@, now),
{
    let mut gone: Vec<Entity> = Vec::new();
    let mut i: usize = 0;
    while i < timers.len()
        invariant
            i <= timers.len(),
            gone@ == spec_despawn_timer(timers@.subrange(0, i as int), now),
        decreases timers.len() - i,
    {
        let timer = timers[i];
        proof {
            let seen = timers@.subrange(0, i as int);
            assert(timers@.subrange(0, i + 1) == seen.push(timer));
            reveal(Seq::filter);
            assert(seen.push(timer).drop_last() == seen);
        }
        if timer.1.expired(now) {
            gone.push(timer.0);
        }
        i += 1;
    }
    assert(timers@.subrange(0, i as int) == timers@);
    gone
}

} // verus!
