//! Paths: the control points of a smooth curve through waypoints, its
//! calibration by arc length, and the search that moves a follower along
//! it by a given distance.

use vstd::prelude::*;
use crate::entity::Entity;
use crate::geometry::{spec_travel, travel, Vec3, UNIT};

verus! {

/// How many samples are taken on each segment of a curve to measure it.
pub const SUBDIVISIONS: u32 = 20;

/// The control points of the curve through `waypoints`: the waypoints with
/// the first and the last one doubled, so that the curve starts and ends
/// along the path. Fewer than three waypoints make no curve yet.
pub fn control_points<T: Copy>(waypoints: &Vec<T>) -> (r: Option<Vec<T>>)
    ensures
        match r {
            Some(points) => waypoints.len() >= 3 && points@ == seq![waypoints@[0]] + waypoints@
                + seq![waypoints@.last()],
            None => waypoints.len() < 3,
        },
{
    if waypoints.len() < 3 {
        return None;
    }
    let mut points: Vec<T> = Vec::new();
    points.push(waypoints[0]);
    let mut i: usize = 0;
    while i < waypoints.len()
        invariant
            i <= waypoints.len(),
            waypoints.len() >= 3,
            points@ == seq![waypoints@[0]] + waypoints@.subrange(0, i as int),
        decreases waypoints.len() - i,
    {
        points.push(waypoints[i]);
        i += 1;
    }
    points.push(waypoints[waypoints.len() - 1]);
    Some(points)
}

/// How many steps a curve of `segments` segments is sampled in when it is
/// measured; the samples are one more.
pub fn sample_steps(segments: u32) -> (r: u64)
    ensures
        r == segments * SUBDIVISIONS,
{
    assert(segments * SUBDIVISIONS <= 0xffff_ffff * 20) by (nonlinear_arith)
        requires
            0 <= segments <= 0xffff_ffff,
            SUBDIVISIONS == 20,
    ;
    segments as u64 * SUBDIVISIONS as u64
}

/// The length of the line that joins `samples` in their order: the sum of
/// the distances between neighbours, each rounded down.
pub open spec fn spec_polyline_length(samples: Seq<Vec3>) -> int
    decreases samples.len(),
{
    if samples.len() < 2 {
        0
    } else {
        spec_polyline_length(samples.drop_last()) + samples[samples.len() - 2].spec_distance(
            samples.last(),
        )
    }
}

/// A path calibrated by arc length: the number of segments of its curve and
/// the length of the curve. Their ratio turns a distance travelled into the
/// curve's own parameter.
#[derive(Clone, Copy, Debug, PartialEq, Eq, Structural)]
pub struct Curve {
    pub segments: u32,
    pub length: u64,
}

impl Default for Curve {
    /// The curve through no points: every distance falls on parameter zero.
    fn default() -> (r: Curve)
        ensures
            r == (Curve { segments: 0, length: 0 }),
    {
        Curve { segments: 0, length: 0 }
    }
}

/// The point halfway between `low` and `high`, rounded down.
pub open spec fn midpoint(low: u64, high: u64) -> u64 {
    if low <= high {
        (low + (high - low) / 2) as u64
    } else {
        low
    }
}

/// The width `width` after `rounds` halvings, each rounded up.
pub open spec fn halved(width: int, rounds: nat) -> int
    decreases rounds,
{
    if rounds == 0 {
        width
    } else {
        halved((width + 1) / 2, (rounds - 1) as nat)
    }
}

proof fn lemma_halved_grows(narrow: int, wide: int, rounds: nat)
    requires
        narrow <= wide,
    ensures
        halved(narrow, rounds) <= halved(wide, rounds),
    decreases rounds,
{
    if rounds > 0 {
        lemma_halved_grows((narrow + 1) / 2, (wide + 1) / 2, (rounds - 1) as nat);
    }
}

/// Whether `near` tells what the probe `closer` answers: whatever `closer`
/// returns for a parameter is what `near` says of it.
pub open spec fn answers<F: Fn(u64) -> bool>(closer: F, near: spec_fn(u64) -> bool) -> bool {
    forall|t: u64, b: bool| closer.ensures((t,), b) ==> b == near(t)
}

impl Curve {
    /// Measures a curve of `segments` segments from `samples`, the points
    /// met when the curve is walked in equal steps of its parameter. The
    /// length is that of the line through the samples, and stops at the
    /// largest length that can be held.
    pub fn calibrate(segments: u32, samples: &Vec<Vec3>) -> (r: Curve)
        ensures
            r.segments == segments,
            r.length == if spec_polyline_length(samples@) > u64::MAX {
                u64::MAX as int
            } else {
                spec_polyline_length(samples@)
            },
    {
        if samples.len() == 0 {
            return Curve { segments, length: 0 };
        }
        let mut length: u64 = 0;
        let mut i: usize = 1;
        while i < samples.len()
            invariant
                1 <= i <= samples.len(),
                length == if spec_polyline_length(samples@.subrange(0, i as int)) > u64::MAX {
                    u64::MAX as int
                } else {
                    spec_polyline_length(samples@.subrange(0, i as int))
                },
            decreases samples.len() - i,
        {
            let ghost before = samples@.subrange(0, i as int);
            let ghost after = samples@.subrange(0, i + 1);
            assert(after.drop_last() == before);
            let d = samples[i - 1].distance(&samples[i]);
            length = length.saturating_add(d);
            i += 1;
        }
        assert(samples@.subrange(0, i as int) == samples@);
        Curve { segments, length }
    }

    /// The curve's own parameter, in thousandths of a segment, at the
    /// distance `along` from its start: `along` times the ratio of segments
    /// to length, rounded down. On a curve without length it is zero.
    pub open spec fn spec_parameter(self, along: u64) -> u64 {
        if self.length == 0 {
            0
        } else if along * self.segments * UNIT / (self.length as int) > u64::MAX {
            u64::MAX
        } else {
            (along * self.segments * UNIT / (self.length as int)) as u64
        }
    }

    /// The curve's own parameter grows with the distance along the curve,
    /// and at the end of a curve that has a length it is the number of
    /// segments.
    pub proof fn lemma_parameter_grows(self, nearer: u64, further: u64)
        requires
            nearer <= further,
        ensures
            self.spec_parameter(nearer) <= self.spec_parameter(further),
            self.length > 0 ==> self.spec_parameter(self.length) == self.segments * UNIT,
    {
        if self.length > 0 {
            let scale = self.segments * UNIT;
            let length = self.length as int;
            assert(0 <= nearer * self.segments * UNIT <= further * self.segments * UNIT)
                by (nonlinear_arith)
                requires
                    0 <= nearer <= further,
                    0 <= self.segments,
                    0 <= UNIT,
            ;
            assert((nearer * self.segments * UNIT) / length <= (further * self.segments * UNIT)
                / length) by (nonlinear_arith)
                requires
                    0 <= nearer * self.segments * UNIT <= further * self.segments * UNIT,
                    0 < length,
            ;
            assert((self.length * self.segments * UNIT) / length == scale) by (nonlinear_arith)
                requires
                    scale == self.segments * UNIT,
                    length == self.length,
                    0 < length,
            ;
            assert(scale <= 0xffff_ffff * 1000) by (nonlinear_arith)
                requires
                    scale == self.segments * UNIT,
                    0 <= self.segments <= 0xffff_ffff,
                    UNIT == 1000,
            ;
        }
    }

    /// The bracket that the search widens to, starting from `low` and
    /// `high`: as long as the curve's point at `high` is still near, the
    /// bracket moves up to `high` and its far end goes twice as far from
    /// `pos`. It also stops where the far end has not left `pos` or cannot
    /// go twice as far.
    pub open spec fn spec_expand(
        self,
        near: spec_fn(u64) -> bool,
        pos: u64,
        low: u64,
        high: u64,
    ) -> (u64, u64)
        decreases u64::MAX - high,
    {
        if pos < high && high + (high - pos) <= u64::MAX && near(self.spec_parameter(high)) {
            self.spec_expand(near, pos, high, (high + (high - pos)) as u64)
        } else {
            (low, high)
        }
    }

    /// The bracket after `rounds` halvings: each keeps the upper half where
    /// the curve's point at the middle is still near, and the lower half
    /// where it is not.
    pub open spec fn spec_refine(
        self,
        near: spec_fn(u64) -> bool,
        low: u64,
        high: u64,
        rounds: nat,
    ) -> (u64, u64)
        decreases rounds,
    {
        if rounds == 0 {
            (low, high)
        } else if near(self.spec_parameter(midpoint(low, high))) {
            self.spec_refine(near, midpoint(low, high), high, (rounds - 1) as nat)
        } else {
            self.spec_refine(near, low, midpoint(low, high), (rounds - 1) as nat)
        }
    }

    /// Where a follower at the distance `pos` along the curve comes to when
    /// it moves on by `length` in a straight line, as far as the search
    /// finds it: the middle of the bracket after it was widened and then
    /// halved three times. `near` says of a parameter of the curve whether
    /// the point there is closer to the follower's point than `length`.
    pub open spec fn spec_position(self, near: spec_fn(u64) -> bool, pos: u64, length: u64) -> u64 {
        let wide = self.spec_expand(near, pos, pos, pos.saturating_add(length));
        let narrow = self.spec_refine(near, wide.0, wide.1, 3);
        midpoint(narrow.0, narrow.1)
    }

    /// The search never leaves its bracket downward: widening keeps
    /// `pos <= low <= high`.
    pub proof fn lemma_expand_ordered(
        self,
        near: spec_fn(u64) -> bool,
        pos: u64,
        low: u64,
        high: u64,
    )
        requires
            pos <= low <= high,
        ensures
            pos <= self.spec_expand(near, pos, low, high).0 <= self.spec_expand(
                near,
                pos,
                low,
                high,
            ).1,
        decreases u64::MAX - high,
    {
        if pos < high && high + (high - pos) <= u64::MAX && near(self.spec_parameter(high)) {
            self.lemma_expand_ordered(near, pos, high, (high + (high - pos)) as u64);
        }
    }

    /// Halving keeps the bracket in order and never lowers its lower end.
    pub proof fn lemma_refine_ordered(
        self,
        near: spec_fn(u64) -> bool,
        low: u64,
        high: u64,
        rounds: nat,
    )
        requires
            low <= high,
        ensures
            low <= self.spec_refine(near, low, high, rounds).0 <= self.spec_refine(
                near,
                low,
                high,
                rounds,
            ).1 <= high,
        decreases rounds,
    {
        if rounds > 0 {
            if near(self.spec_parameter(midpoint(low, high))) {
                self.lemma_refine_ordered(near, midpoint(low, high), high, (rounds - 1) as nat);
            } else {
                self.lemma_refine_ordered(near, low, midpoint(low, high), (rounds - 1) as nat);
            }
        }
    }

    /// Widening ends on a bracket whose lower end is `pos` or still near,
    /// and whose upper end is no longer near unless it has not left `pos`
    /// or cannot go twice as far.
    pub proof fn lemma_expand_brackets(
        self,
        near: spec_fn(u64) -> bool,
        pos: u64,
        low: u64,
        high: u64,
    )
        requires
            low == pos || near(self.spec_parameter(low)),
        ensures
            ({
                let wide = self.spec_expand(near, pos, low, high);
                &&& wide.0 == pos || near(self.spec_parameter(wide.0))
                &&& wide.1 <= pos || wide.1 + (wide.1 - pos) > u64::MAX || !near(
                    self.spec_parameter(wide.1),
                )
            }),
        decreases u64::MAX - high,
    {
        if pos < high && high + (high - pos) <= u64::MAX && near(self.spec_parameter(high)) {
            self.lemma_expand_brackets(near, pos, high, (high + (high - pos)) as u64);
        }
    }

    /// Halving ends on a bracket whose lower end is the one it began with
    /// or still near, whose upper end is the one it began with or no longer
    /// near, and whose width has been halved, rounded up, in every round.
    pub proof fn lemma_refine_brackets(
        self,
        near: spec_fn(u64) -> bool,
        low: u64,
        high: u64,
        rounds: nat,
    )
        requires
            low <= high,
        ensures
            ({
                let narrow = self.spec_refine(near, low, high, rounds);
                &&& narrow.0 == low || near(self.spec_parameter(narrow.0))
                &&& narrow.1 == high || !near(self.spec_parameter(narrow.1))
                &&& narrow.1 - narrow.0 <= halved(high - low, rounds)
            }),
        decreases rounds,
    {
        if rounds > 0 {
            let mid = midpoint(low, high);
            if near(self.spec_parameter(mid)) {
                self.lemma_refine_brackets(near, mid, high, (rounds - 1) as nat);
            } else {
                self.lemma_refine_brackets(near, low, mid, (rounds - 1) as nat);
                lemma_halved_grows((mid - low) as int, ((high - low) + 1) / 2, (rounds - 1) as nat);
            }
        }
    }

    /// What the search finds lies between a distance at which the curve's
    /// point is still near, or the start, and a distance at which it is no
    /// longer near, or the far end of the widening; and these two are no
    /// further apart than an eighth of the widened bracket, rounded up.
    pub proof fn lemma_position_between_near_and_far(
        self,
        near: spec_fn(u64) -> bool,
        pos: u64,
        length: u64,
    )
        ensures
            ({
                let wide = self.spec_expand(near, pos, pos, pos.saturating_add(length));
                let narrow = self.spec_refine(near, wide.0, wide.1, 3);
                &&& pos <= narrow.0 <= self.spec_position(near, pos, length) <= narrow.1 <= wide.1
                &&& narrow.0 == pos || near(self.spec_parameter(narrow.0))
                &&& narrow.1 == wide.1 || !near(self.spec_parameter(narrow.1))
                &&& wide.1 <= pos || wide.1 + (wide.1 - pos) > u64::MAX || !near(
                    self.spec_parameter(wide.1),
                )
                &&& 8 * (narrow.1 - narrow.0) <= (wide.1 - wide.0) + 7
            }),
    {
        let start = pos.saturating_add(length);
        self.lemma_expand_ordered(near, pos, pos, start);
        self.lemma_expand_brackets(near, pos, pos, start);
        let wide = self.spec_expand(near, pos, pos, start);
        self.lemma_refine_ordered(near, wide.0, wide.1, 3);
        self.lemma_refine_brackets(near, wide.0, wide.1, 3);
        reveal_with_fuel(halved, 4);
    }

    /// A search without length stays where it starts, whatever the curve is
    /// like.
    pub proof fn lemma_position_without_length(self, near: spec_fn(u64) -> bool, pos: u64)
        ensures
            self.spec_position(near, pos, 0) == pos,
    {
        self.lemma_refine_ordered(near, pos, pos, 3);
    }

    /// A follower never moves backward: whatever the curve is like, the
    /// search returns a distance along the curve that is at least the one
    /// it started from.
    pub proof fn lemma_position_never_behind(self, near: spec_fn(u64) -> bool, pos: u64, length: u64)
        ensures
            self.spec_position(near, pos, length) >= pos,
    {
        let start = pos.saturating_add(length);
        self.lemma_expand_ordered(near, pos, pos, start);
        let wide = self.spec_expand(near, pos, pos, start);
        self.lemma_refine_ordered(near, wide.0, wide.1, 3);
    }

    /// The distances along the curve that a follower reaches in a run of
    /// searches, each from where the one before ended; `nears` and
    /// `lengths` hold the probe and the length of each search.
    pub open spec fn spec_journey(
        self,
        nears: Seq<spec_fn(u64) -> bool>,
        start: u64,
        lengths: Seq<u64>,
    ) -> Seq<u64>
        decreases lengths.len(),
    {
        if lengths.len() == 0 {
            Seq::empty()
        } else {
            let before = self.spec_journey(nears.drop_last(), start, lengths.drop_last());
            let from = if before.len() == 0 {
                start
            } else {
                before.last()
            };
            before.push(self.spec_position(nears.last(), from, lengths.last()))
        }
    }

    /// Over a run of searches a follower never turns back: each distance
    /// along the curve that it reaches is at least the one reached before,
    /// and at least the one it started from.
    pub proof fn lemma_journey_never_turns_back(
        self,
        nears: Seq<spec_fn(u64) -> bool>,
        start: u64,
        lengths: Seq<u64>,
    )
        ensures
            self.spec_journey(nears, start, lengths).len() == lengths.len(),
            forall|i: int, k: int|
                0 <= i <= k < lengths.len() ==> start <= #[trigger] self.spec_journey(
                    nears,
                    start,
                    lengths,
                )[i] <= #[trigger] self.spec_journey(nears, start, lengths)[k],
        decreases lengths.len(),
    {
        if lengths.len() > 0 {
            self.lemma_journey_never_turns_back(nears.drop_last(), start, lengths.drop_last());
            let before = self.spec_journey(nears.drop_last(), start, lengths.drop_last());
            let from = if before.len() == 0 {
                start
            } else {
                before.last()
            };
            self.lemma_position_never_behind(nears.last(), from, lengths.last());
        }
    }

    /// Moves a follower on: from the distance `pos` along the curve to the
    /// distance at which the curve's point is `length` away from the
    /// follower's point in a straight line, approximately; it returns that
    /// distance and the curve's point there. `closer` is asked of parameters
    /// of the curve, in thousandths of a segment, whether the point there is
    /// closer to the follower's point than `length`; `point` gives the
    /// curve's point at a parameter. The far end of the search doubles its
    /// distance from `pos` while the answer is yes; the bracket so found is
    /// halved three times.
    pub fn position<P, F: Fn(u64) -> bool, G: Fn(u64) -> P>(
        &self,
        pos: u64,
        length: u64,
        closer: F,
        point: G,
    ) -> (r: (u64, P))
        requires
            forall|t: u64| closer.requires((t,)),
            forall|t: u64| point.requires((t,)),
        ensures
            r.0 >= pos,
            length == 0 ==> r.0 == pos,
            forall|near: spec_fn(u64) -> bool| #[trigger]
                answers(closer, near) ==> r.0 == self.spec_position(near, pos, length),
            point.ensures((self.spec_parameter(r.0),), r.1),
    {
        let first: u64 = pos.saturating_add(length);
        let mut low: u64 = pos;
        let mut high: u64 = first;
        loop
            invariant
                pos <= low <= high,
                length == 0 ==> high == pos,
                forall|t: u64| closer.requires((t,)),
                forall|near: spec_fn(u64) -> bool| #[trigger]
                    answers(closer, near) ==> self.spec_expand(near, pos, pos, first)
                        == self.spec_expand(near, pos, low, high),
            ensures
                pos <= low <= high,
                length == 0 ==> high == pos,
                forall|near: spec_fn(u64) -> bool| #[trigger]
                    answers(closer, near) ==> self.spec_expand(near, pos, pos, first) == (
                        low,
                        high,
                    ),
            decreases u64::MAX - high,
        {
            if high <= pos || high - pos > u64::MAX - high {
                break;
            }
            let t = self.parameter(high);
            let still_near = closer(t);
            if !still_near {
                break;
            }
            low = high;
            high = high + (high - pos);
        }
        let ghost wide = (low, high);
        let mut rounds: u8 = 3;
        while rounds > 0
            invariant
                pos <= low <= high,
                length == 0 ==> high == pos,
                rounds <= 3,
                forall|t: u64| closer.requires((t,)),
                forall|near: spec_fn(u64) -> bool| #[trigger]
                    answers(closer, near) ==> self.spec_refine(near, wide.0, wide.1, 3)
                        == self.spec_refine(near, low, high, rounds as nat),
            decreases rounds,
        {
            let mid: u64 = low + (high - low) / 2;
            let t = self.parameter(mid);
            if closer(t) {
                low = mid;
            } else {
                high = mid;
            }
            rounds -= 1;
        }
        let along: u64 = low + (high - low) / 2;
        let t = self.parameter(along);
        (along, point(t))
    }

    /// The curve's own parameter, in thousandths of a segment, at the
    /// distance `along` from its start.
    pub fn parameter(&self, along: u64) -> (r: u64)
        ensures
            r == self.spec_parameter(along),
    {
        if self.length == 0 {
            return 0;
        }
        assert(along * self.segments * UNIT <= 0xffff_ffff_ffff_ffff * 0xffff_ffff * 1000)
            by (nonlinear_arith)
            requires
                0 <= along <= 0xffff_ffff_ffff_ffff,
                0 <= self.segments <= 0xffff_ffff,
                UNIT == 1000,
        ;
        let scaled: u128 = (along as u128) * (self.segments as u128) * (UNIT as u128);
        let t: u128 = scaled / (self.length as u128);
        if t > u64::MAX as u128 {
            u64::MAX
        } else {
            t as u64
        }
    }
}

/// A follower of a path: the curve it is on, its speed in thousandths of a
/// unit per second, and how far along the curve it has come.
#[derive(Clone, Copy, Debug, PartialEq, Eq, Structural)]
pub struct FollowCurve {
    pub curve: Entity,
    pub speed: u32,
    pub along: u64,
}

impl FollowCurve {
    /// A follower at the start of `curve`.
    pub fn new(curve: Entity, speed: u32) -> (r: FollowCurve)
        ensures
            r == (FollowCurve { curve, speed, along: 0 }),
    {
        FollowCurve { curve, speed, along: 0 }
    }

    /// How far along its curve the follower has come.
    pub fn distance(&self) -> (r: u64)
        ensures
            r == self.along,
    {
        self.along
    }
}

/// Moves `follow` on along `curve` for `delta` nanoseconds and returns the
/// point of the curve at which it now stands. The follower covers the
/// distance that its speed gives; `closer` and `point` are the probe and
/// the curve that `Curve::position` asks. The follower never moves
/// backward.
pub fn follow_curve<P, F: Fn(u64) -> bool, G: Fn(u64) -> P>(
    follow: &mut FollowCurve,
    curve: &Curve,
    delta: u64,
    closer: F,
    point: G,
) -> (stands: P)
    requires
        forall|t: u64| closer.requires((t,)),
        forall|t: u64| point.requires((t,)),
    ensures
        final(follow).curve == old(follow).curve,
        final(follow).speed == old(follow).speed,
        final(follow).along >= old(follow).along,
        spec_travel(old(follow).speed, delta) == 0 ==> final(follow).along == old(follow).along,
        forall|near: spec_fn(u64) -> bool| #[trigger]
            answers(closer, near) ==> final(follow).along == curve.spec_position(
                near,
                old(follow).along,
                spec_travel(old(follow).speed, delta),
            ),
        point.ensures((curve.spec_parameter(final(follow).along),), stands),
{
    let length = travel(follow.speed, delta);
    let (along, stands) = curve.position(follow.along, length, closer, point);
    follow.along = along;
    stands
}

} // verus!
