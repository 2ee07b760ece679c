//! Units and the economy around them: the kinds of unit, the summoning
//! circles that produce them, their death and their arrival at the goal.

use vstd::prelude::*;
use crate::entity::{Entity, UnitState};
use crate::geometry::{spec_within, within, Vec3};
use crate::level::GameStats;
use crate::spline::FollowCurve;
use crate::utils::{get_random_from_iter, pick};

verus! {

/// The kinds of unit that a summoning circle can produce, in the order in
/// which they are unlocked.
#[derive(Clone, Copy, Debug, PartialEq, Eq, Structural)]
pub enum UnitPrefab {
    Imp,
    Ghoul,
}

impl Default for UnitPrefab {
    fn default() -> (r: UnitPrefab)
        ensures
            r == UnitPrefab::Imp,
    {
        UnitPrefab::Imp
    }
}

impl UnitPrefab {
    /// How many kinds of unit there are.
    pub open spec fn spec_cardinality() -> u8 {
        2
    }

    /// How many kinds of unit there are.
    pub fn cardinality() -> (r: u8)
        ensures
            r == Self::spec_cardinality(),
    {
        2
    }

    /// The scene that holds a unit of this kind.
    pub fn path(&self) -> (r: &'static str)
        ensures
            r@ == (match self {
                UnitPrefab::Imp => "scenes/Imp.scn.ron"@,
                UnitPrefab::Ghoul => "scenes/Ghoul.scn.ron"@,
            }),
    {
        match self {
            UnitPrefab::Imp => "scenes/Imp.scn.ron",
            UnitPrefab::Ghoul => "scenes/Ghoul.scn.ron",
        }
    }

    /// What one unit of this kind costs, in thousandths of a second of a
    /// summoning circle's time.
    pub open spec fn spec_cost(self) -> u32 {
        match self {
            UnitPrefab::Imp => 1000,
            UnitPrefab::Ghoul => 2000,
        }
    }

    /// What one unit of this kind costs.
    pub fn cost(&self) -> (r: u32)
        ensures
            r == self.spec_cost(),
    {
        match self {
            UnitPrefab::Imp => 1000,
            UnitPrefab::Ghoul => 2000,
        }
    }

    /// The name of this kind of unit.
    pub fn name(&self) -> (r: &'static str)
        ensures
            r@ == (match self {
                UnitPrefab::Imp => "Imp"@,
                UnitPrefab::Ghoul => "Ghoul"@,
            }),
    {
        match self {
            UnitPrefab::Imp => "Imp",
            UnitPrefab::Ghoul => "Ghoul",
        }
    }

    /// The kinds of unit that can be chosen once the upgrade that unlocks
    /// them stands at `level`: the first kind and `level` more, as far
    /// as there are any.
    pub fn unlocked(level: u8) -> (r: Vec<UnitPrefab>)
        ensures
            r@ == (if level == 0 {
                seq![UnitPrefab::Imp]
            } else {
                seq![UnitPrefab::Imp, UnitPrefab::Ghoul]
            }),
    {
        let mut kinds: Vec<UnitPrefab> = Vec::new();
        kinds.push(UnitPrefab::Imp);
        if level > 0 {
            kinds.push(UnitPrefab::Ghoul);
        }
        kinds
    }
}

/// A unit: its speed along its path, in thousandths of a world unit per
/// second.
#[derive(Clone, Copy, Debug, PartialEq, Eq, Structural)]
pub struct Unit {
    pub speed: u32,
}

impl Default for Unit {
    fn default() -> (r: Unit)
        ensures
            r.speed == 2000,
    {
        Unit { speed: 2000 }
    }
}

/// The health of a damageable entity, in thousandths of a point.
#[derive(Clone, Copy, Debug, PartialEq, Eq, Structural)]
pub struct Health(pub i64);

impl Health {
    /// The health left after a hit of `amount`; it stops at the least
    /// value that can be held.
    pub open spec fn spec_after_hit(self, amount: u32) -> Health {
        if self.0 - amount < i64::MIN {
            Health(i64::MIN)
        } else {
            Health((self.0 - amount) as i64)
        }
    }

    /// The health left after a hit of `amount`.
    pub fn after_hit(self, amount: u32) -> (r: Health)
        ensures
            r == self.spec_after_hit(amount),
    {
        if self.0 < i64::MIN + amount as i64 {
            Health(i64::MIN)
        } else {
            Health(self.0 - amount as i64)
        }
    }

    /// Whether the entity is dead: its health is zero or less.
    pub open spec fn spec_is_dead(self) -> bool {
        self.0 <= 0
    }

    /// Whether the entity is dead: its health is zero or less.
    pub fn is_dead(&self) -> (r: bool)
        ensures
            r == self.spec_is_dead(),
    {
        self.0 <= 0
    }
}

impl Default for Health {
    fn default() -> (r: Health)
        ensures
            r == Health(100_000),
    {
        Health(100_000)
    }
}

/// The follower that a unit becomes on the curve that the roll `roll` picks
/// among `curves`: it starts at the beginning of that curve, at the unit's
/// speed. There is none where the roll picks no curve.
pub fn assign_curve(unit: &Unit, curves: &Vec<Entity>, roll: usize) -> (r: Option<FollowCurve>)
    ensures
        r == (if roll < curves.len() {
            Some(FollowCurve { curve: curves@[roll as int], speed: unit.speed, along: 0 })
        } else {
            None::<FollowCurve>
        }),
{
    match pick(curves, roll) {
        Some(curve) => Some(FollowCurve::new(*curve, unit.speed)),
        None => None,
    }
}

/// Puts a new unit on a path: on one of `curves`, picked at random, at the
/// beginning and at the unit's speed. While there is no curve the unit
/// stays without a path.
pub fn instantiate_unit(unit: &Unit, curves: &Vec<Entity>) -> (r: Option<FollowCurve>)
    ensures
        curves.len() == 0 ==> r is None,
        curves.len() > 0 ==> exists|i: int|
            0 <= i < curves.len() && r == Some(
                FollowCurve { curve: curves@[i], speed: unit.speed, along: 0 },
            ),
{
    match get_random_from_iter(curves) {
        Some(curve) => Some(FollowCurve::new(*curve, unit.speed)),
        None => None,
    }
}

/// A summoning circle: the kind of unit it produces, how many at a time,
/// and the instant at which it last did.
#[derive(Clone, Copy, Debug, PartialEq, Eq, Structural)]
pub struct Spawner {
    pub prefab: UnitPrefab,
    pub number: u8,
    pub prev: u64,
}

impl Default for Spawner {
    fn default() -> (r: Spawner)
        ensures
            r == Spawner::first(),
    {
        Spawner { prefab: UnitPrefab::Imp, number: 1, prev: 0 }
    }
}

/// The units that a summoning circle produces at one firing.
#[derive(Clone, Copy, Debug, PartialEq, Eq, Structural)]
pub struct Batch {
    pub prefab: UnitPrefab,
    pub number: u8,
}

impl Spawner {
    /// The summoning circle that a round starts with.
    pub open spec fn first() -> Spawner {
        Spawner { prefab: UnitPrefab::Imp, number: 1, prev: 0 }
    }

    /// The time between two firings, in nanoseconds, while the speed
    /// upgrade stands at `speed`.
    pub open spec fn spec_total_cooldown(self, speed: u8) -> u64 {
        (self.prefab.spec_cost() * self.number * 5 * 1_000_000 / (5 + speed)) as u64
    }

    /// The time between two firings, in nanoseconds: the cost of a unit
    /// times the number of units times five, divided by five and the level
    /// of the speed upgrade, rounded down. It follows the upgrade at once.
    pub fn total_cooldown(&self, speed: u8) -> (r: u64)
        ensures
            r == self.spec_total_cooldown(speed),
    {
        let cost = self.prefab.cost() as u64;
        let number = self.number as u64;
        let work: u64 = cost * number * 5 * 1_000_000;
        work / (5 + speed as u64)
    }

    /// The cooldown is in inverse proportion to five and the level of the
    /// speed upgrade: times that sum it gives the cost of the batch times
    /// five, as nearly as whole nanoseconds can; a higher level never makes
    /// it longer; and a level that doubles the sum halves the cooldown.
    pub proof fn lemma_cooldown_inverse(self, speed: u8, faster: u8)
        requires
            speed <= faster,
        ensures
            self.spec_total_cooldown(speed) * (5 + speed) <= self.prefab.spec_cost() * self.number
                * 5 * 1_000_000 < (self.spec_total_cooldown(speed) + 1) * (5 + speed),
            self.spec_total_cooldown(faster) <= self.spec_total_cooldown(speed),
            5 + faster == 2 * (5 + speed) ==> self.spec_total_cooldown(faster)
                == self.spec_total_cooldown(speed) / 2,
    {
        let work = self.prefab.spec_cost() * self.number * 5 * 1_000_000;
        let a = 5 + speed;
        let b = 5 + faster;
        assert((work / a) * a <= work < (work / a + 1) * a) by (nonlinear_arith)
            requires
                0 <= work,
                0 < a,
        ;
        assert(work / b <= work / a) by (nonlinear_arith)
            requires
                0 <= work,
                0 < a <= b,
        ;
        if b == 2 * a {
            vstd::arithmetic::div_mod::lemma_div_denominator(work, a, 2);
        }
    }

    /// The instant after which the circle fires again.
    pub open spec fn spec_next(self, speed: u8) -> u64 {
        self.prev.saturating_add(self.spec_total_cooldown(speed))
    }

    /// The instant after which the circle fires again: the last firing
    /// plus the cooldown.
    pub fn next(&self, speed: u8) -> (r: u64)
        ensures
            r == self.spec_next(speed),
    {
        self.prev.saturating_add(self.total_cooldown(speed))
    }

    /// How much of the cooldown has gone by at the instant `time`, in
    /// billionths.
    pub open spec fn spec_progress(self, time: u64, speed: u8) -> u32 {
        let cooldown = self.spec_total_cooldown(speed);
        if time <= self.prev {
            0
        } else if cooldown == 0 || time - self.prev >= cooldown {
            1_000_000_000
        } else {
            ((time - self.prev) * 1_000_000_000 / (cooldown as int)) as u32
        }
    }

    /// How much of the cooldown has gone by at the instant `time`, in
    /// billionths: the time since the last firing over the cooldown,
    /// rounded down and kept between nothing and the whole.
    pub fn progress(&self, time: u64, speed: u8) -> (r: u32)
        ensures
            r == self.spec_progress(time, speed),
            r <= 1_000_000_000,
    {
        let cooldown = self.total_cooldown(speed);
        if time <= self.prev {
            0
        } else if cooldown == 0 || time - self.prev >= cooldown {
            1_000_000_000
        } else {
            let gone: u64 = time - self.prev;
            assert(0 <= gone * 1_000_000_000 / (cooldown as int) < 1_000_000_000 && gone
                * 1_000_000_000 <= 0xffff_ffff_ffff_ffff * 1_000_000_000) by (nonlinear_arith)
                requires
                    0 <= gone < cooldown,
                    gone <= 0xffff_ffff_ffff_ffff,
            ;
            ((gone as u128) * 1_000_000_000 / (cooldown as u128)) as u32
        }
    }

    /// Whether the circle fires at the instant `now`: only once the clock
    /// has passed the instant of the next firing, not when it has just
    /// reached it.
    pub open spec fn spec_fires(self, now: u64, speed: u8) -> bool {
        self.spec_next(speed) < now
    }

    /// The circle after the pass at the instant `now`.
    pub open spec fn spec_ticked(self, now: u64, speed: u8) -> Spawner {
        if self.spec_fires(now, speed) {
            Spawner { prev: now, ..self }
        } else {
            self
        }
    }

    /// The units that the circle produces at a firing.
    pub open spec fn batch(self) -> Batch {
        Batch { prefab: self.prefab, number: self.number }
    }

    /// One pass over the circle at the instant `now`. Where the clock has
    /// passed the instant of the next firing, the circle fires: it notes
    /// `now` as its last firing and returns the units to produce.
    pub fn tick(&mut self, now: u64, speed: u8) -> (r: Option<Batch>)
        ensures
            *final(self) == old(self).spec_ticked(now, speed),
            r == (if old(self).spec_fires(now, speed) {
                Some(old(self).batch())
            } else {
                None::<Batch>
            }),
    {
        if self.next(speed) < now {
            self.prev = now;
            Some(Batch { prefab: self.prefab, number: self.number })
        } else {
            None
        }
    }
}

/// The units that the circles `spawners` produce at the pass at the
/// instant `now`, in the order of the circles: one batch for each circle
/// that fires.
pub open spec fn spec_batches(spawners: Seq<Spawner>, now: u64, speed: u8) -> Seq<Batch>
    decreases spawners.len(),
{
    if spawners.len() == 0 {
        Seq::empty()
    } else if spawners.last().spec_fires(now, speed) {
        spec_batches(spawners.drop_last(), now, speed).push(spawners.last().batch())
    } else {
        spec_batches(spawners.drop_last(), now, speed)
    }
}

/// One pass over all summoning circles at the instant `now`, with the
/// speed upgrade as `stats` has it. Each circle whose next firing the clock
/// has passed fires: it notes `now` and its batch is returned.
pub fn tick_spawners(spawners: &mut Vec<Spawner>, now: u64, stats: &GameStats) -> (r: Vec<Batch>)
    ensures
        final(spawners)@.len() == old(spawners)@.len(),
        forall|i: int|
            0 <= i < old(spawners)@.len() ==> (#[trigger] final(spawners)@[i]) == old(
                spawners,
            )@[i].spec_ticked(now, stats.upgrade_speed),
        r@ == spec_batches(old(spawners)@, now, stats.upgrade_speed),
{
    let speed = stats.upgrade_speed;
    let mut batches: Vec<Batch> = Vec::new();
    let mut i: usize = 0;
    while i < spawners.len()
        invariant
            i <= spawners.len(),
            spawners.len() == old(spawners).len(),
            forall|j: int|
                0 <= j < i ==> (#[trigger] spawners@[j]) == old(spawners)@[j].spec_ticked(now, speed),
            forall|j: int| i <= j < spawners.len() ==> spawners@[j] == old(spawners)@[j],
            batches@ == spec_batches(old(spawners)@.subrange(0, i as int), now, speed),
        decreases spawners.len() - i,
    {
        let mut spawner = spawners[i];
        assert(old(spawners)@.subrange(0, i + 1).drop_last() == old(spawners)@.subrange(
            0,
            i as int,
        ));
        match spawner.tick(now, speed) {
            Some(batch) => {
                batches.push(batch);
            },
            None => {},
        }
        spawners[i] = spawner;
        i += 1;
    }
    assert(old(spawners)@.subrange(0, i as int) == old(spawners)@);
    batches
}

/// Whether a unit is dead.
pub open spec fn is_dead(unit: UnitState) -> bool {
    unit.health.spec_is_dead()
}

/// The units of `units` that are alive, in their order.
pub open spec fn survivors(units: Seq<UnitState>) -> Seq<UnitState> {
    units.filter(|u: UnitState| !is_dead(u))
}

/// The dead among `units`, in their order.
pub open spec fn casualties(units: Seq<UnitState>) -> Seq<Entity> {
    units.filter(|u: UnitState| is_dead(u)).map_values(|u: UnitState| u.entity)
}

/// `count` more souls, as far as the counter can hold them.
pub open spec fn more_souls(souls: u32, count: nat) -> u32 {
    if souls + count > u32::MAX {
        u32::MAX
    } else {
        (souls + count) as u32
    }
}

proof fn lemma_filter_none<A>(s: Seq<A>, pred: spec_fn(A) -> bool)
    requires
        forall|i: int| 0 <= i < s.len() ==> !pred(#[trigger] s[i]),
    ensures
        s.filter(pred) == Seq::<A>::empty(),
    decreases s.len(),
{
    reveal(Seq::filter);
    if s.len() > 0 {
        lemma_filter_none(s.drop_last(), pred);
    }
}

proof fn lemma_filter_all<A>(s: Seq<A>, pred: spec_fn(A) -> bool)
    requires
        forall|i: int| 0 <= i < s.len() ==> pred(#[trigger] s[i]),
    ensures
        s.filter(pred) == s,
    decreases s.len(),
{
    reveal(Seq::filter);
    if s.len() > 0 {
        lemma_filter_all(s.drop_last(), pred);
    }
}

/// Nobody dies twice: among those who survive a pass none is dead, so a
/// second pass over them removes nobody and credits no soul.
pub proof fn lemma_death_is_credited_once(units: Seq<UnitState>)
    ensures
        forall|i: int| 0 <= i < survivors(units).len() ==> !is_dead(#[trigger] survivors(units)[i]),
        survivors(survivors(units)) == survivors(units),
        casualties(survivors(units)) == Seq::<Entity>::empty(),
        forall|souls: u32| #[trigger] more_souls(souls, casualties(survivors(units)).len()) == souls,
{
    let alive = |u: UnitState| !is_dead(u);
    let dead = |u: UnitState| is_dead(u);
    let left = units.filter(alive);
    lemma_filter_all(left, alive);
    lemma_filter_none(left, dead);
}

/// A pass splits the units: as many leave as are dead, and the others
/// stay, so each unit is counted on one side only.
pub proof fn lemma_death_splits(units: Seq<UnitState>)
    ensures
        survivors(units).len() + casualties(units).len() == units.len(),
    decreases units.len(),
{
    reveal(Seq::filter);
    if units.len() > 0 {
        lemma_death_splits(units.drop_last());
    }
}

/// Several units that arrive together cost the defenders what they would
/// cost one after the other, and the morale never goes below zero nor up.
pub proof fn lemma_morale_after(morale: u8, first: nat, second: nat)
    ensures
        0 <= morale_after(morale, first) <= morale,
        morale_after(morale, first + second) == morale_after(morale_after(morale, first), second),
{
}

proof fn lemma_filter_push<A>(s: Seq<A>, x: A, pred: spec_fn(A) -> bool)
    ensures
        s.push(x).filter(pred) == if pred(x) {
            s.filter(pred).push(x)
        } else {
            s.filter(pred)
        },
{
    reveal(Seq::filter);
    assert(s.push(x).drop_last() == s);
}

fn credit(souls: u32, count: usize) -> (r: u32)
    ensures
        r == more_souls(souls, count as nat),
{
    if count > (u32::MAX - souls) as usize {
        u32::MAX
    } else {
        souls + count as u32
    }
}

/// Death: every unit whose health is zero or less leaves `units` and is
/// returned, to be destroyed; each of them is worth one soul, in hand and
/// in all. A unit is credited once: it has left `units` when this returns.
pub fn die(units: &mut Vec<UnitState>, stats: &mut GameStats) -> (dead: Vec<Entity>)
    ensures
        final(units)@ == survivors(old(units)@),
        dead@ == casualties(old(units)@),
        *final(stats) == (GameStats {
            souls_current: more_souls(old(stats).souls_current, dead@.len()),
            souls_total: more_souls(old(stats).souls_total, dead@.len()),
            ..*old(stats)
        }),
{
    let mut alive: Vec<UnitState> = Vec::new();
    let mut dead: Vec<Entity> = Vec::new();
    let mut i: usize = 0;
    while i < units.len()
        invariant
            i <= units.len(),
            units@ == old(units)@,
            alive@ == survivors(units@.subrange(0, i as int)),
            dead@ == casualties(units@.subrange(0, i as int)),
        decreases units.len() - i,
    {
        let unit = units[i];
        proof {
            let seen = units@.subrange(0, i as int);
            assert(units@.subrange(0, i + 1) == seen.push(unit));
            lemma_filter_push(seen, unit, |u: UnitState| !is_dead(u));
            lemma_filter_push(seen, unit, |u: UnitState| is_dead(u));
        }
        if unit.health.is_dead() {
            dead.push(unit.entity);
        } else {
            alive.push(unit);
        }
        i += 1;
    }
    assert(units@.subrange(0, i as int) == units@);
    *units = alive;
    stats.souls_current = credit(stats.souls_current, dead.len());
    stats.souls_total = credit(stats.souls_total, dead.len());
    dead
}

/// The goal of the path: a unit closer to its centre than `radius` has
/// arrived.
#[derive(Clone, Copy, Debug, PartialEq, Eq, Structural)]
pub struct Goal {
    pub radius: u32,
}

impl Default for Goal {
    fn default() -> (r: Goal)
        ensures
            r.radius == 3000,
    {
        Goal { radius: 3000 }
    }
}

/// The units of `units` that have not arrived at the goal, in their order.
pub open spec fn on_the_way(units: Seq<UnitState>, centre: Vec3, radius: u32) -> Seq<UnitState> {
    units.filter(|u: UnitState| !spec_within(centre, u.position, radius))
}

/// The units of `units` that have arrived at the goal, in their order.
pub open spec fn arrivals(units: Seq<UnitState>, centre: Vec3, radius: u32) -> Seq<Entity> {
    units.filter(|u: UnitState| spec_within(centre, u.position, radius)).map_values(
        |u: UnitState| u.entity,
    )
}

/// The morale after `count` units have arrived: one less for each, and
/// never less than zero.
pub open spec fn morale_after(morale: u8, count: nat) -> u8 {
    if count >= morale {
        0
    } else {
        (morale - count) as u8
    }
}

/// Scoring: every unit closer to `centre` than the goal's radius leaves
/// `units` and is returned, to be destroyed, and costs the defenders one
/// point of morale, which stops at zero.
pub fn score(goal: &Goal, centre: Vec3, units: &mut Vec<UnitState>, stats: &mut GameStats) -> (arrived:
    Vec<Entity>)
    ensures
        final(units)@ == on_the_way(old(units)@, centre, goal.radius),
        arrived@ == arrivals(old(units)@, centre, goal.radius),
        *final(stats) == (GameStats {
            defender_morale: morale_after(old(stats).defender_morale, arrived@.len()),
            ..*old(stats)
        }),
        old(stats).well_formed() ==> final(stats).well_formed(),
{
    let radius = goal.radius;
    let mut staying: Vec<UnitState> = Vec::new();
    let mut arrived: Vec<Entity> = Vec::new();
    let mut i: usize = 0;
    while i < units.len()
        invariant
            i <= units.len(),
            units@ == old(units)@,
            staying@ == on_the_way(units@.subrange(0, i as int), centre, radius),
            arrived@ == arrivals(units@.subrange(0, i as int), centre, radius),
            stats.defender_morale == morale_after(old(stats).defender_morale, arrived@.len()),
            *stats == (GameStats { defender_morale: stats.defender_morale, ..*old(stats) }),
        decreases units.len() - i,
    {
        let unit = units[i];
        proof {
            let seen = units@.subrange(0, i as int);
            assert(units@.subrange(0, i + 1) == seen.push(unit));
            lemma_filter_push(seen, unit, |u: UnitState| !spec_within(centre, u.position, radius));
            lemma_filter_push(seen, unit, |u: UnitState| spec_within(centre, u.position, radius));
        }
        if within(&centre, &unit.position, radius) {
            arrived.push(unit.entity);
            if stats.defender_morale > 0 {
                stats.defender_morale = stats.defender_morale - 1;
            }
        } else {
            staying.push(unit);
        }
        i += 1;
    }
    assert(units@.subrange(0, i as int) == units@);
    *units = staying;
    arrived
}

} // verus!
