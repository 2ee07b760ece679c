//! The order of a pass of the simulation. The stages of a pass run one
//! after the other, and the rules rely on their order: a tower picks its
//! target before it fires, damage lands before the dead are counted, and
//! who has died is gone before arrivals at the goal are scored.

use vstd::prelude::*;

verus! {

/// The stages of one pass of the simulation.
#[derive(Clone, Copy, Debug, PartialEq, Eq, Hash, Structural)]
pub enum Stage {
    /// Followers move on along their paths.
    PathAdvance,
    /// Towers without a target pick one.
    TargetAcquisition,
    /// Towers turn to their targets.
    Aim,
    /// Towers fire.
    Fire,
    /// Projectiles fly, arrive and deal their damage.
    ProjectileMotion,
    /// Whatever has run out of time goes.
    TimedDespawn,
    /// Summoning circles produce their batches.
    EconomySpawn,
    /// The dead are counted and go.
    DeathCredit,
    /// Arrivals at the goal are scored and go.
    GoalScoring,
}

impl Stage {
    /// The place of the stage in a pass, counted from zero.
    pub open spec fn spec_rank(self) -> nat {
        match self {
            Stage::PathAdvance => 0,
            Stage::TargetAcquisition => 1,
            Stage::Aim => 2,
            Stage::Fire => 3,
            Stage::ProjectileMotion => 4,
            Stage::TimedDespawn => 5,
            Stage::EconomySpawn => 6,
            Stage::DeathCredit => 7,
            Stage::GoalScoring => 8,
        }
    }

    /// The place of the stage in a pass, counted from zero.
    pub fn rank(&self) -> (r: u8)
        ensures
            r == self.spec_rank(),
    {
        match self {
            Stage::PathAdvance => 0,
            Stage::TargetAcquisition => 1,
            Stage::Aim => 2,
            Stage::Fire => 3,
            Stage::ProjectileMotion => 4,
            Stage::TimedDespawn => 5,
            Stage::EconomySpawn => 6,
            Stage::DeathCredit => 7,
            Stage::GoalScoring => 8,
        }
    }

    /// Whether this stage runs before `other` in a pass.
    pub fn runs_before(&self, other: &Stage) -> (r: bool)
        ensures
            r == (self.spec_rank() < other.spec_rank()),
    {
        self.rank() < other.rank()
    }
}

/// The stages of a pass, in the order in which they run.
pub open spec fn spec_stages() -> Seq<Stage> {
    seq![
        Stage::PathAdvance,
        Stage::TargetAcquisition,
        Stage::Aim,
        Stage::Fire,
        Stage::ProjectileMotion,
        Stage::TimedDespawn,
        Stage::EconomySpawn,
        Stage::DeathCredit,
        Stage::GoalScoring,
    ]
}

/// The stages of a pass, in the order in which they run: each stage once,
/// at the place that its rank gives.
pub fn stages() -> (r: Vec<Stage>)
    ensures
        r@ == spec_stages(),
        forall|i: int| 0 <= i < r@.len() ==> (#[trigger] r@[i]).spec_rank() == i,
        forall|stage: Stage| stage.spec_rank() < r@.len() && r@[stage.spec_rank() as int] == stage,
{
    let mut order: Vec<Stage> = Vec::new();
    order.push(Stage::PathAdvance);
    order.push(Stage::TargetAcquisition);
    order.push(Stage::Aim);
    order.push(Stage::Fire);
    order.push(Stage::ProjectileMotion);
    order.push(Stage::TimedDespawn);
    order.push(Stage::EconomySpawn);
    order.push(Stage::DeathCredit);
    order.push(Stage::GoalScoring);
    order
}

/// What the rules rely on in the order of a pass: a tower picks its target
/// before it fires; all damage of a pass has landed before the dead are
/// counted; and the dead are counted before arrivals are scored.
pub proof fn lemma_order_of_a_pass()
    ensures
        Stage::PathAdvance.spec_rank() < Stage::TargetAcquisition.spec_rank(),
        Stage::TargetAcquisition.spec_rank() < Stage::Fire.spec_rank(),
        Stage::Fire.spec_rank() < Stage::ProjectileMotion.spec_rank(),
        Stage::ProjectileMotion.spec_rank() < Stage::DeathCredit.spec_rank(),
        Stage::DeathCredit.spec_rank() < Stage::GoalScoring.spec_rank(),
{
}

} // verus!
