//! Projectiles: how they fly, when they arrive, and what their damage does.

use vstd::prelude::*;
use crate::entity::{spec_lookup, lookup, Entity, UnitState};
use crate::fx::DespawnTimer;
use crate::geometry::{
    clamp_coordinate, is_root, spec_travel, spec_within, travel, trunc_div, within, Vec3,
};

verus! {

/// What a projectile does to what it hits. Amounts and the blast radius are
/// in thousandths.
#[derive(Clone, Copy, Debug, PartialEq, Eq, Structural)]
pub enum Damage {
    Physical(u32),
    Magical(u32),
    /// An amount and a blast radius.
    Explosive(u32, u32),
}

impl Default for Damage {
    fn default() -> (r: Damage)
        ensures
            r == Damage::Physical(20_000),
    {
        Damage::Physical(20_000)
    }
}

impl Damage {
    /// The amount taken from the health of each entity that is hit.
    pub open spec fn spec_amount(self) -> u32 {
        match self {
            Damage::Physical(d) => d,
            Damage::Magical(d) => d,
            Damage::Explosive(d, _) => d,
        }
    }

    /// The amount taken from the health of each entity that is hit.
    pub fn amount(&self) -> (r: u32)
        ensures
            r == self.spec_amount(),
    {
        match self {
            Damage::Physical(d) => *d,
            Damage::Magical(d) => *d,
            Damage::Explosive(d, _) => *d,
        }
    }

    /// Whether the unit at index `i` is hit when this damage lands at `pos`
    /// on a projectile sent after `target`: for an explosion every unit
    /// closer than the blast radius, otherwise the target alone.
    pub open spec fn hits(self, pos: Vec3, target: Entity, units: Seq<UnitState>, i: int) -> bool {
        match self {
            Damage::Explosive(_, radius) => spec_within(pos, units[i].position, radius),
            _ => spec_lookup(units, target) == Some(i),
        }
    }
}

/// Where a projectile is headed: the entity it was sent after, where that
/// entity stood at launch, and where the projectile left from.
#[derive(Clone, Copy, Debug, PartialEq, Eq, Structural)]
pub struct ProjectileTarget {
    pub entity: Entity,
    pub target: Vec3,
    pub pos: Vec3,
}

impl ProjectileTarget {
    pub fn new(entity: Entity, target: Vec3, pos: Vec3) -> (r: ProjectileTarget)
        ensures
            r == (ProjectileTarget { entity, target, pos }),
    {
        ProjectileTarget { entity, target, pos }
    }
}

/// The projectiles that a tower can be set to fire.
#[derive(Clone, Copy, Debug, PartialEq, Eq, Structural)]
pub enum ProjectilePrefab {
    Arrow,
    Bomb,
}

impl Default for ProjectilePrefab {
    fn default() -> (r: ProjectilePrefab)
        ensures
            r == ProjectilePrefab::Arrow,
    {
        ProjectilePrefab::Arrow
    }
}

impl ProjectilePrefab {
    /// The scene that holds the projectile.
    pub fn path(&self) -> (r: &'static str)
        ensures
            r@ == (match self {
                ProjectilePrefab::Arrow => "scenes/Arrow.scn.ron"@,
                ProjectilePrefab::Bomb => "scenes/Bomb.scn.ron"@,
            }),
    {
        match self {
            ProjectilePrefab::Arrow => "scenes/Arrow.scn.ron",
            ProjectilePrefab::Bomb => "scenes/Bomb.scn.ron",
        }
    }
}

/// The unit `unit` after a hit of `amount`.
pub open spec fn wounded(unit: UnitState, amount: u32) -> UnitState {
    UnitState { health: unit.health.spec_after_hit(amount), ..unit }
}

/// The units after `damage` has landed at `pos`: each unit that is hit has
/// lost the amount, every other unit is as before.
pub open spec fn spec_deal_damage(
    units: Seq<UnitState>,
    pos: Vec3,
    damage: Damage,
    target: Entity,
) -> Seq<UnitState> {
    Seq::new(
        units.len(),
        |i: int|
            if damage.hits(pos, target, units, i) {
                wounded(units[i], damage.spec_amount())
            } else {
                units[i]
            },
    )
}

/// An explosion takes its amount from every unit whose squared distance
/// from the point of impact is less than the squared radius, and leaves
/// every unit at that distance or beyond as it was.
pub proof fn lemma_explosion_reach(
    units: Seq<UnitState>,
    pos: Vec3,
    amount: u32,
    radius: u32,
    target: Entity,
    i: int,
)
    requires
        0 <= i < units.len(),
    ensures
        spec_deal_damage(units, pos, Damage::Explosive(amount, radius), target).len() == units.len(),
        pos.spec_distance_squared(units[i].position) < radius * radius ==> spec_deal_damage(
            units,
            pos,
            Damage::Explosive(amount, radius),
            target,
        )[i] == wounded(units[i], amount),
        pos.spec_distance_squared(units[i].position) >= radius * radius ==> spec_deal_damage(
            units,
            pos,
            Damage::Explosive(amount, radius),
            target,
        )[i] == units[i],
{
}

/// Resolves `damage` landing at `pos`. Physical and magical damage is taken
/// from the target alone, and from nobody where the target is gone; an
/// explosion is taken from every unit closer to `pos` than its radius.
pub fn deal_damage(pos: Vec3, damage: Damage, target: Entity, units: &mut Vec<UnitState>)
    ensures
        final(units)@ == spec_deal_damage(old(units)@, pos, damage, target),
{
    match damage {
        Damage::Explosive(d, r) => {
            let mut i: usize = 0;
            while i < units.len()
                invariant
                    i <= units.len(),
                    units.len() == old(units).len(),
                    damage == Damage::Explosive(d, r),
                    forall|j: int|
                        0 <= j < i ==> units@[j] == spec_deal_damage(
                            old(units)@,
                            pos,
                            damage,
                            target,
                        )[j],
                    forall|j: int| i <= j < units.len() ==> units@[j] == old(units)@[j],
                decreases units.len() - i,
            {
                let unit = units[i];
                if within(&pos, &unit.position, r) {
                    units[i].health = unit.health.after_hit(d);
                }
                i += 1;
            }
        },
        _ => {
            let d = damage.amount();
            match lookup(units, target) {
                Some(i) => {
                    let unit = units[i];
                    units[i].health = unit.health.after_hit(d);
                },
                None => {},
            }
        },
    }
}

/// A projectile that follows its target: each pass it reads again where
/// the target stands.
#[derive(Clone, Copy, Debug, PartialEq, Eq, Structural)]
pub struct HomingProjectile {
    pub damage: Damage,
    /// In thousandths of a world unit per second.
    pub speed: u32,
}

impl Default for HomingProjectile {
    fn default() -> (r: HomingProjectile)
        ensures
            r == (HomingProjectile { damage: Damage::Physical(10_000), speed: 20_000 }),
    {
        HomingProjectile { damage: Damage::Physical(10_000), speed: 20_000 }
    }
}

/// A projectile that flies to where its target stood when it was fired.
#[derive(Clone, Copy, Debug, PartialEq, Eq, Structural)]
pub struct DumbProjectile {
    pub damage: Damage,
    /// In thousandths of a world unit per second.
    pub speed: u32,
}

impl Default for DumbProjectile {
    fn default() -> (r: DumbProjectile)
        ensures
            r == (DumbProjectile { damage: Damage::Explosive(10_000, 4_000), speed: 20_000 }),
    {
        DumbProjectile { damage: Damage::Explosive(10_000, 4_000), speed: 20_000 }
    }
}

/// A beam: it is shown for `duration` nanoseconds and then goes; it
/// resolves no damage.
#[derive(Clone, Copy, Debug, PartialEq, Eq, Structural)]
pub struct RayProjectile {
    pub damage: Damage,
    pub duration: u64,
}

impl Default for RayProjectile {
    fn default() -> (r: RayProjectile)
        ensures
            r == (RayProjectile { damage: Damage::Magical(10_000), duration: 1_000_000_000 }),
    {
        RayProjectile { damage: Damage::Magical(10_000), duration: 1_000_000_000 }
    }
}

impl RayProjectile {
    /// The timer that removes a beam first shown at the instant `now`: it
    /// runs out once the beam's duration has gone by.
    pub fn setup_ray(&self, now: u64) -> (r: DespawnTimer)
        ensures
            r == DespawnTimer(now.saturating_add(self.duration)),
    {
        DespawnTimer(now.saturating_add(self.duration))
    }
}

/// How far above the foot of its target a projectile aims, in thousandths
/// of a world unit.
pub const AIM_HEIGHT: i32 = 300;

/// The point that a projectile aims for when its target stands at
/// `target`.
pub open spec fn spec_aim(target: Vec3) -> Vec3 {
    Vec3 { y: clamp_coordinate(target.y + AIM_HEIGHT), ..target }
}

/// The point that a projectile aims for when its target stands at
/// `target`: a little above it.
pub fn aim(target: Vec3) -> (r: Vec3)
    ensures
        r == spec_aim(target),
{
    let y = if target.y > i32::MAX - AIM_HEIGHT {
        i32::MAX
    } else {
        target.y + AIM_HEIGHT
    };
    Vec3 { x: target.x, y, z: target.z }
}

/// Whether a projectile at `position` that covers `step` in this pass
/// arrives at `aim`: the squared distance left is less than the squared
/// step.
pub open spec fn spec_arrives(position: Vec3, aim: Vec3, step: u64) -> bool {
    position.spec_distance_squared(aim) < step * step
}

/// One coordinate of a projectile after a step of `step` toward a point
/// that is `distance` away: the share `step / distance` of the way from
/// `from` to `to`, rounded toward `from`.
pub open spec fn spec_approach(from: i32, to: i32, step: u64, distance: int) -> int {
    if distance <= 0 {
        from as int
    } else {
        from + trunc_div((to - from) * step, distance)
    }
}

/// Where a projectile at `position` stands after a step of `step` toward
/// `aim`.
pub open spec fn spec_advanced(position: Vec3, aim: Vec3, step: u64) -> Vec3 {
    let distance = position.spec_distance(aim);
    Vec3 {
        x: spec_approach(position.x, aim.x, step, distance) as i32,
        y: spec_approach(position.y, aim.y, step, distance) as i32,
        z: spec_approach(position.z, aim.z, step, distance) as i32,
    }
}

/// A step that is no longer than the way moves a coordinate no further
/// than to where it is headed.
pub proof fn lemma_approach_between(from: i32, to: i32, step: u64, distance: int)
    requires
        step <= distance,
    ensures
        from <= to ==> from <= spec_approach(from, to, step, distance) <= to,
        to <= from ==> to <= spec_approach(from, to, step, distance) <= from,
{
    if distance > 0 {
        let gap = to - from;
        if gap >= 0 {
            assert(0 <= (gap * step) / distance <= gap) by (nonlinear_arith)
                requires
                    0 <= gap,
                    0 <= step <= distance,
                    0 < distance,
            ;
        } else {
            assert(0 <= ((-gap) * step) / distance <= -gap) by (nonlinear_arith)
                requires
                    0 <= -gap,
                    0 <= step <= distance,
                    0 < distance,
            ;
            assert(-(gap * step) == (-gap) * step) by (nonlinear_arith);
        }
    }
}

fn approach(from: i32, to: i32, step: u64, distance: u64) -> (r: i32)
    requires
        step <= distance < 0x2_0000_0000,
    ensures
        r == spec_approach(from, to, step, distance as int),
{
    if distance == 0 {
        return from;
    }
    let gap: i64 = to as i64 - from as i64;
    proof {
        lemma_approach_between(from, to, step, distance as int);
    }
    assert(-0x2_0000_0000 * 0x1_0000_0000 <= gap * step <= 0x2_0000_0000 * 0x1_0000_0000)
        by (nonlinear_arith)
        requires
            -0x1_0000_0000 <= gap <= 0x1_0000_0000,
            0 <= step <= 0x2_0000_0000,
    ;
    let scaled: i128 = (gap as i128) * (step as i128);
    let moved: i128 = scaled / (distance as i128);
    (from as i128 + moved) as i32
}

/// Where a projectile at `position` comes to in a pass in which it covers
/// `step` toward `aim`: `None` where it arrives, otherwise the point it
/// moves to. It arrives once the squared distance left is less than the
/// squared step, and so never flies past its aim.
pub fn fly(position: Vec3, aim: Vec3, step: u64) -> (r: Option<Vec3>)
    ensures
        r == (if spec_arrives(position, aim, step) {
            None::<Vec3>
        } else {
            Some(spec_advanced(position, aim, step))
        }),
{
    let left: u128 = position.distance_squared(&aim);
    if step >= 0x2_0000_0000 {
        assert(step * step >= 0x2_0000_0000 * 0x2_0000_0000) by (nonlinear_arith)
            requires
                step >= 0x2_0000_0000,
        ;
        return None;
    }
    assert(step * step <= 0x2_0000_0000 * 0x2_0000_0000) by (nonlinear_arith)
        requires
            0 <= step <= 0x2_0000_0000,
    ;
    if left < (step as u128) * (step as u128) {
        return None;
    }
    let distance: u64 = position.distance(&aim);
    proof {
        crate::geometry::lemma_isqrt_exists(left as int);
        if step > distance {
            assert(step * step >= (distance + 1) * (distance + 1)) by (nonlinear_arith)
                requires
                    step >= distance + 1,
                    distance >= 0,
            ;
        }
    }
    Some(
        Vec3 {
            x: approach(position.x, aim.x, step, distance),
            y: approach(position.y, aim.y, step, distance),
            z: approach(position.z, aim.z, step, distance),
        },
    )
}

/// What a pass over a projectile at `position` that aims for `aim` comes
/// to: whether the projectile goes, where it stands, and how the units are.
pub open spec fn spec_strike(
    position: Vec3,
    aim: Vec3,
    speed: u32,
    damage: Damage,
    target: Entity,
    delta: u64,
    units: Seq<UnitState>,
) -> (bool, Vec3, Seq<UnitState>) {
    let step = spec_travel(speed, delta);
    if spec_arrives(position, aim, step) {
        (true, position, spec_deal_damage(units, position, damage, target))
    } else {
        (false, spec_advanced(position, aim, step), units)
    }
}

fn strike(
    position: &mut Vec3,
    aim: Vec3,
    speed: u32,
    damage: Damage,
    target: Entity,
    delta: u64,
    units: &mut Vec<UnitState>,
) -> (despawn: bool)
    ensures
        (despawn, *final(position), final(units)@) == spec_strike(
            *old(position),
            aim,
            speed,
            damage,
            target,
            delta,
            old(units)@,
        ),
{
    let step = travel(speed, delta);
    match fly(*position, aim, step) {
        None => {
            deal_damage(*position, damage, target, units);
            true
        },
        Some(moved) => {
            *position = moved;
            false
        },
    }
}

/// One pass of `delta` nanoseconds over a projectile that flies to where
/// its target stood at launch. Where it arrives in this pass, its damage
/// lands at the point where it is and the projectile goes (`true`);
/// otherwise it moves on toward its aim and no unit is touched.
pub fn shoot_dumb(
    projectile: &DumbProjectile,
    target: &ProjectileTarget,
    position: &mut Vec3,
    delta: u64,
    units: &mut Vec<UnitState>,
) -> (despawn: bool)
    ensures
        (despawn, *final(position), final(units)@) == spec_strike(
            *old(position),
            spec_aim(target.target),
            projectile.speed,
            projectile.damage,
            target.entity,
            delta,
            old(units)@,
        ),
{
    strike(
        position,
        aim(target.target),
        projectile.speed,
        projectile.damage,
        target.entity,
        delta,
        units,
    )
}

/// What a pass over a projectile that follows its target comes to:
/// whether the projectile goes, where it stands, and how the units are.
pub open spec fn spec_shoot_homing(
    projectile: HomingProjectile,
    target: ProjectileTarget,
    position: Vec3,
    delta: u64,
    units: Seq<UnitState>,
) -> (bool, Vec3, Seq<UnitState>) {
    match spec_lookup(units, target.entity) {
        Some(i) => spec_strike(
            position,
            spec_aim(units[i].position),
            projectile.speed,
            projectile.damage,
            target.entity,
            delta,
            units,
        ),
        None => (true, position, units),
    }
}

/// A projectile that follows a target which is gone goes, and no unit's
/// health is touched, whatever its damage is.
pub proof fn lemma_lost_target_harms_nobody(
    projectile: HomingProjectile,
    target: ProjectileTarget,
    position: Vec3,
    delta: u64,
    units: Seq<UnitState>,
)
    requires
        forall|i: int| 0 <= i < units.len() ==> (#[trigger] units[i]).entity != target.entity,
    ensures
        spec_shoot_homing(projectile, target, position, delta, units) == (true, position, units),
{
    crate::entity::lemma_first_index_from(units, target.entity, 0);
}

/// One pass of `delta` nanoseconds over a projectile that follows its
/// target. Where the target is gone, the projectile goes (`true`) and
/// nothing else changes. Otherwise it aims for where the target stands
/// now, and arrives or moves on as a projectile that does not follow.
pub fn shoot_homing(
    projectile: &HomingProjectile,
    target: &ProjectileTarget,
    position: &mut Vec3,
    delta: u64,
    units: &mut Vec<UnitState>,
) -> (despawn: bool)
    ensures
        (despawn, *final(position), final(units)@) == spec_shoot_homing(
            *projectile,
            *target,
            *old(position),
            delta,
            old(units)@,
        ),
{
    match lookup(units, target.entity) {
        Some(i) => {
            let stands = units[i].position;
            strike(
                position,
                aim(stands),
                projectile.speed,
                projectile.damage,
                target.entity,
                delta,
                units,
            )
        },
        None => true,
    }
}

} // verus!
