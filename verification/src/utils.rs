//! Chance, and the smoothing of a value toward a target.

use vstd::prelude::*;
use crate::geometry::{trunc_div, NANOS_PER_SECOND};

verus! {

/// Calls `fastrand::usize` on the range from zero up to `count`, `count`
/// itself left out. The generator returns a number of that range; which
/// one is not known. It panics on an empty range, so `count` is not zero.
#[verifier::external_body]
pub(crate) fn random_below(count: usize) -> (r: usize)
    requires
        count > 0,
    ensures
        r < count,
{
    fastrand::usize(0..count)
}

/// Calls `fastrand::bool`. Nothing is known of the result.
#[verifier::external_body]
pub(crate) fn random_bool() -> (r: bool) {
    fastrand::bool()
}

/// The item that the roll `roll` picks among `items`: the item at that
/// index, and none where the index is past the end.
pub fn pick<T>(items: &Vec<T>, roll: usize) -> (r: Option<&T>)
    ensures
        r == (if roll < items.len() {
            Some(&items@[roll as int])
        } else {
            None::<&T>
        }),
{
    if roll < items.len() {
        Some(&items[roll])
    } else {
        None
    }
}

/// One of `items`, picked at random: none where there is none, the only
/// one where there is one, and otherwise any of them.
pub fn get_random_from_iter<T>(items: &Vec<T>) -> (r: Option<&T>)
    ensures
        items.len() == 0 ==> r is None,
        items.len() == 1 ==> r == Some(&items@[0]),
        items.len() > 0 ==> exists|i: int| 0 <= i < items.len() && r == Some(&items@[i]),
{
    match items.len() {
        0 => None,
        1 => pick(items, 0),
        count => {
            let roll = random_below(count);
            pick(items, roll)
        },
    }
}

/// How many steps of the smoothing make one unit: the smoothing holds
/// values in billionths, and velocities in billionths per second, so that
/// a step of the spring is met to the billionth or so.
pub const FINE: u64 = 1_000_000_000;

/// The largest speed, either way, that the smoothing reckons with, in
/// billionths of a unit per second; a larger one counts as this one.
pub const MAX_VELOCITY: i64 = 0x4000_0000_0000_0000;

/// The longest pass that the smoothing reckons with, in nanoseconds; a
/// longer one counts as this one.
pub const MAX_DELTA: u64 = 0x100_0000_0000;

/// The largest ratio of a pass to the smoothing time that the smoothing
/// reckons with, in billionths: a million, where the decay is next to
/// nothing. A larger ratio counts as this one.
pub const MAX_RATIO: u64 = 1_000_000_000_000_000;

/// `value`, or the nearer of `low` and `high` where it lies outside them.
pub open spec fn clamp(value: int, low: int, high: int) -> int {
    if value < low {
        low
    } else if value > high {
        high
    } else {
        value
    }
}

/// The frequency of the spring, two over the smoothing time, times the
/// length `delta` of the pass: a ratio without unit, in billionths,
/// rounded down, and `MAX_RATIO` at most. Both times are in nanoseconds.
pub open spec fn spec_ratio(smooth_time: u64, delta: int) -> int {
    clamp(2 * delta * 1_000_000_000 / (smooth_time as int), 0, MAX_RATIO as int)
}

/// A billion billions times `1 + x + 0.48 x^2 + 0.235 x^3`, for an `x`
/// given in billionths: what the decay divides by.
pub open spec fn spec_decay_divisor(x: int) -> int {
    1_000_000_000_000_000_000 + 1_000_000_000 * x + 480 * (x * x) / 1000 + 235 * ((x * x)
        / 1_000_000_000 * x) / 1000
}

/// The decay `1 / (1 + x + 0.48 x^2 + 0.235 x^3)`, which stands for `e`
/// to the minus `x`, in billionths of a billionth and rounded down; `x` is
/// given in billionths.
pub open spec fn spec_decay(x: int) -> int {
    1_000_000_000_000_000_000_000_000_000_000_000_000int / spec_decay_divisor(x)
}

/// `value` times the decay for `x`, rounded toward zero.
pub open spec fn spec_decayed(value: int, x: int) -> int {
    trunc_div(value * spec_decay(x), 1_000_000_000_000_000_000)
}

/// One step of a critically damped spring that draws `current` toward
/// `target`: the new value and the new velocity. Values are in billionths
/// of a unit, velocities in billionths per second, times in nanoseconds,
/// and each quotient is rounded toward zero. With `omega` for two over the
/// smoothing time and `x` for `omega` times the length of the pass:
///
/// - `change` is the way from the target to the value, cut to what
///   `max_speed` covers in the smoothing time, and `next` is the value
///   less `change`;
/// - `temp` is `(velocity + omega * change)` times the length of the pass;
/// - the new velocity is `(velocity - omega * temp)` times the decay;
/// - the new value is `next + (change + temp)` times the decay.
///
/// A step that would carry the value past the target ends on the target,
/// at rest.
pub open spec fn spec_smooth_damp(
    current: i64,
    target: i64,
    velocity: i64,
    smooth_time: u64,
    max_speed: u64,
    delta_time: u64,
) -> (i64, i64) {
    let second = NANOS_PER_SECOND as int;
    let v = clamp(velocity as int, -MAX_VELOCITY, MAX_VELOCITY as int);
    let d = clamp(delta_time as int, 0, MAX_DELTA as int);
    let x = spec_ratio(smooth_time, d);
    let max_change = max_speed * smooth_time / second;
    let change = clamp(current - target, -max_change, max_change);
    let next = current - change;
    let temp = trunc_div(v * d, second) + trunc_div(change * x, 1_000_000_000);
    let omega_temp = trunc_div(2 * (v * d), smooth_time as int) + trunc_div(
        2 * (change * x),
        smooth_time as int,
    );
    let slowed = spec_decayed(v - omega_temp, x);
    let output = next + spec_decayed(change + temp, x);
    if (target > current) == (output > target) {
        (target, 0)
    } else {
        (
            clamp(output, i64::MIN as int, i64::MAX as int) as i64,
            clamp(slowed, -MAX_VELOCITY, MAX_VELOCITY as int) as i64,
        )
    }
}

/// The smoothing never carries a value past its target: a value below the
/// target ends at or below it, and a value at or above the target ends at
/// or above it.
pub proof fn lemma_smooth_damp_stops_at_target(
    current: i64,
    target: i64,
    velocity: i64,
    smooth_time: u64,
    max_speed: u64,
    delta_time: u64,
)
    ensures
        target > current ==> spec_smooth_damp(
            current,
            target,
            velocity,
            smooth_time,
            max_speed,
            delta_time,
        ).0 <= target,
        target <= current ==> spec_smooth_damp(
            current,
            target,
            velocity,
            smooth_time,
            max_speed,
            delta_time,
        ).0 >= target,
{
}

/// The decay is a share between nothing and the whole, and it outweighs
/// the growth `1 + x`: the decay times `1 + x` is the whole at most.
pub proof fn lemma_decay_bounds(x: int)
    requires
        0 <= x,
    ensures
        spec_decay_divisor(x) >= 1_000_000_000_000_000_000 + 1_000_000_000 * x,
        0 <= spec_decay(x) <= 1_000_000_000_000_000_000,
        spec_decay(x) * (1_000_000_000 + x) <= 1_000_000_000_000_000_000_000_000_000,
{
    let divisor = spec_decay_divisor(x);
    let whole = 1_000_000_000_000_000_000_000_000_000_000_000_000int;
    let e = spec_decay(x);
    let square = x * x;
    assert(square >= 0) by (nonlinear_arith)
        requires
            square == x * x,
    ;
    let cube = square / 1_000_000_000 * x;
    assert(cube >= 0) by (nonlinear_arith)
        requires
            cube == square / 1_000_000_000 * x,
            square >= 0,
            x >= 0,
    ;
    assert(480 * square / 1000 >= 0 && 235 * cube / 1000 >= 0);
    assert(divisor >= 1_000_000_000 * (1_000_000_000 + x));
    assert(0 <= e <= 1_000_000_000_000_000_000 && e * divisor <= whole) by (nonlinear_arith)
        requires
            e == whole / divisor,
            whole == 1_000_000_000_000_000_000_000_000_000_000_000_000int,
            divisor >= 1_000_000_000_000_000_000,
    ;
    assert(e * (1_000_000_000 + x) <= 1_000_000_000_000_000_000_000_000_000) by (nonlinear_arith)
        requires
            0 <= e,
            0 <= x,
            e * divisor <= 1_000_000_000_000_000_000_000_000_000_000_000_000int,
            divisor >= 1_000_000_000 * (1_000_000_000 + x),
    ;
}

/// What the spring takes back never exceeds the way that counts: for a
/// way `c`, a pull of `c` times `x` and a drift `w` against them, all of
/// them not negative, `c` plus the pull less the drift, decayed, is `c` at
/// most.
proof fn lemma_decayed_within_the_way(c: int, x: int, w: int)
    requires
        0 <= c,
        0 <= x,
        0 <= w,
    ensures
        spec_decayed(c + trunc_div(c * x, 1_000_000_000) - w, x) <= c,
{
    lemma_decay_bounds(x);
    let e = spec_decay(x);
    assert(c * x >= 0) by (nonlinear_arith)
        requires
            c >= 0,
            x >= 0,
    ;
    let p = (c * x) / 1_000_000_000;
    assert(0 <= p && p * 1_000_000_000 <= c * x) by (nonlinear_arith)
        requires
            p == (c * x) / 1_000_000_000,
            c * x >= 0,
    ;
    let value = c + p - w;
    if value >= 0 {
        assert((c + p) * 1_000_000_000 <= c * (1_000_000_000 + x)) by (nonlinear_arith)
            requires
                p * 1_000_000_000 <= c * x,
        ;
        assert((c + p) * e * 1_000_000_000 <= c * 1_000_000_000_000_000_000_000_000_000)
            by (nonlinear_arith)
            requires
                (c + p) * 1_000_000_000 <= c * (1_000_000_000 + x),
                e * (1_000_000_000 + x) <= 1_000_000_000_000_000_000_000_000_000,
                0 <= e,
                0 <= c,
                0 <= x,
        ;
        assert(value * e <= c * 1_000_000_000_000_000_000) by (nonlinear_arith)
            requires
                (c + p) * e * 1_000_000_000 <= c * 1_000_000_000_000_000_000_000_000_000,
                value <= c + p,
                0 <= e,
        ;
        assert(value * e >= 0) by (nonlinear_arith)
            requires
                value >= 0,
                e >= 0,
        ;
        assert((value * e) / 1_000_000_000_000_000_000 <= c) by (nonlinear_arith)
            requires
                0 <= value * e <= c * 1_000_000_000_000_000_000,
        ;
    } else {
        assert(value * e <= 0) by (nonlinear_arith)
            requires
                value < 0,
                e >= 0,
        ;
        if value * e < 0 {
            assert((-(value * e)) / 1_000_000_000_000_000_000 >= 0) by (nonlinear_arith)
                requires
                    -(value * e) >= 0,
            ;
        }
    }
}

/// Rounding toward zero does the same on either side of zero.
proof fn lemma_trunc_div_odd(a: int, b: int)
    requires
        b > 0,
    ensures
        trunc_div(-a, b) == -trunc_div(a, b),
{
    if a == 0 {
        assert(0int / b == 0) by (nonlinear_arith)
            requires
                b > 0,
        ;
    }
}

/// A step toward a target that lies ahead, taken at a velocity that does
/// not point backward, never ends behind where it began; and the same
/// with the sides changed. The new value lies between the old one and the
/// target.
pub proof fn lemma_smooth_damp_never_steps_back(
    current: i64,
    target: i64,
    velocity: i64,
    smooth_time: u64,
    max_speed: u64,
    delta_time: u64,
)
    ensures
        target > current && velocity >= 0 ==> current <= spec_smooth_damp(
            current,
            target,
            velocity,
            smooth_time,
            max_speed,
            delta_time,
        ).0 <= target,
        target < current && velocity <= 0 ==> target <= spec_smooth_damp(
            current,
            target,
            velocity,
            smooth_time,
            max_speed,
            delta_time,
        ).0 <= current,
{
    let second = NANOS_PER_SECOND as int;
    let v = clamp(velocity as int, -MAX_VELOCITY, MAX_VELOCITY as int);
    let d = clamp(delta_time as int, 0, MAX_DELTA as int);
    let x = spec_ratio(smooth_time, d);
    let max_change = max_speed * smooth_time / second;
    let change = clamp(current - target, -max_change, max_change);
    let temp = trunc_div(v * d, second) + trunc_div(change * x, 1_000_000_000);
    assert(max_change >= 0) by (nonlinear_arith)
        requires
            max_change == max_speed * smooth_time / 1_000_000_000,
            smooth_time >= 0,
            max_speed >= 0,
    ;
    if target > current && velocity >= 0 {
        let c = -change;
        assert(v * d >= 0) by (nonlinear_arith)
            requires
                v >= 0,
                d >= 0,
        ;
        let w = (v * d) / second;
        assert(w >= 0) by (nonlinear_arith)
            requires
                w == (v * d) / 1_000_000_000,
                v * d >= 0,
        ;
        assert(change * x == -(c * x)) by (nonlinear_arith)
            requires
                c == -change,
        ;
        lemma_trunc_div_odd(c * x, 1_000_000_000);
        lemma_decayed_within_the_way(c, x, w);
        let back = c + trunc_div(c * x, 1_000_000_000) - w;
        assert(change + temp == -back);
        assert((-back) * spec_decay(x) == -(back * spec_decay(x))) by (nonlinear_arith);
        lemma_trunc_div_odd(back * spec_decay(x), 1_000_000_000_000_000_000);
        assert(spec_decayed(change + temp, x) == -spec_decayed(back, x));
    }
    if target < current && velocity <= 0 {
        let c = change;
        assert((-v) * d >= 0 && v * d == -((-v) * d)) by (nonlinear_arith)
            requires
                v <= 0,
                d >= 0,
        ;
        let w = ((-v) * d) / second;
        assert(w >= 0) by (nonlinear_arith)
            requires
                w == ((-v) * d) / 1_000_000_000,
                (-v) * d >= 0,
        ;
        lemma_trunc_div_odd((-v) * d, second);
        lemma_decayed_within_the_way(c, x, w);
        assert(change + temp == c + trunc_div(c * x, 1_000_000_000) - w);
    }
}

/// A value that is on its target and at rest stays there, at rest.
pub proof fn lemma_smooth_damp_rests_on_target(
    target: i64,
    smooth_time: u64,
    max_speed: u64,
    delta_time: u64,
)
    ensures
        spec_smooth_damp(target, target, 0, smooth_time, max_speed, delta_time) == (target, 0i64),
{
    let second = NANOS_PER_SECOND as int;
    let d = clamp(delta_time as int, 0, MAX_DELTA as int);
    let x = spec_ratio(smooth_time, d);
    let max_change = max_speed * smooth_time / second;
    assert(max_change >= 0) by (nonlinear_arith)
        requires
            max_change == max_speed * smooth_time / 1_000_000_000,
            smooth_time >= 0,
            max_speed >= 0,
    ;
    assert(0 * d == 0);
    assert(0 * x == 0);
    assert(0 * spec_decay(x) == 0);
}

proof fn lemma_product_bound(a: int, b: int, most_a: int, most_b: int)
    requires
        -most_a <= a <= most_a,
        -most_b <= b <= most_b,
    ensures
        -(most_a * most_b) <= a * b <= most_a * most_b,
{
    assert(-(most_a * most_b) <= a * b <= most_a * most_b) by (nonlinear_arith)
        requires
            -most_a <= a <= most_a,
            -most_b <= b <= most_b,
    ;
}

proof fn lemma_trunc_div_bound(a: int, b: int, most: int)
    requires
        -most <= a <= most,
        b >= 1,
    ensures
        -most <= trunc_div(a, b) <= most,
{
    if a >= 0 {
        assert(0 <= a / b <= a) by (nonlinear_arith)
            requires
                0 <= a,
                b >= 1,
        ;
    } else {
        assert(0 <= (-a) / b <= -a) by (nonlinear_arith)
            requires
                0 <= -a,
                b >= 1,
        ;
    }
}

fn decay(x: u64) -> (e: u128)
    requires
        x <= MAX_RATIO,
    ensures
        e == spec_decay(x as int),
        e <= 1_000_000_000_000_000_000,
{
    proof {
        lemma_decay_bounds(x as int);
    }
    let y: u128 = x as u128;
    assert(y * y <= 1_000_000_000_000_000 * 1_000_000_000_000_000) by (nonlinear_arith)
        requires
            0 <= y <= 1_000_000_000_000_000,
    ;
    let square: u128 = y * y;
    let scaled: u128 = square / 1_000_000_000;
    assert(scaled * y <= 1_000_000_000_000_000_000_000 * 1_000_000_000_000_000) by (nonlinear_arith)
        requires
            0 <= scaled <= 1_000_000_000_000_000_000_000,
            0 <= y <= 1_000_000_000_000_000,
    ;
    let cube: u128 = scaled * y;
    let divisor: u128 = 1_000_000_000_000_000_000 + 1_000_000_000 * y + 480 * square / 1000 + 235
        * cube / 1000;
    1_000_000_000_000_000_000_000_000_000_000_000_000u128 / divisor
}

/// `value` times a decay `e`, which is given in billionths of a billionth:
/// the whole multiples of the unit are decayed apart from the rest, so that
/// no product outgrows what can be held.
fn decayed(value: i128, e: u128) -> (r: i128)
    requires
        e <= 1_000_000_000_000_000_000,
        -0x100_0000_0000_0000_0000_0000_0000_0000 <= value <= 0x100_0000_0000_0000_0000_0000_0000_0000,
    ensures
        r == trunc_div(value * e, 1_000_000_000_000_000_000),
{
    let unit: u128 = 1_000_000_000_000_000_000;
    let size: u128 = if value < 0 {
        (-value) as u128
    } else {
        value as u128
    };
    let whole: u128 = size / unit;
    let rest: u128 = size % unit;
    proof {
        vstd::arithmetic::div_mod::lemma_fundamental_div_mod(size as int, unit as int);
        assert(0 <= whole * e <= size) by (nonlinear_arith)
            requires
                size == unit * whole + rest,
                0 <= rest,
                0 <= whole,
                0 <= e <= unit,
        ;
        assert(0 <= rest * e < 1_000_000_000_000_000_000 * 1_000_000_000_000_000_000)
            by (nonlinear_arith)
            requires
                0 <= rest < 1_000_000_000_000_000_000,
                0 <= e <= 1_000_000_000_000_000_000,
        ;
        vstd::arithmetic::div_mod::lemma_hoist_over_denominator(
            rest * e,
            whole * e,
            unit as nat,
        );
        assert(size * e == rest * e + (whole * e) * unit) by (nonlinear_arith)
            requires
                size == unit * whole + rest,
        ;
        assert(0 <= (rest * e) / (unit as int) <= rest * e) by (nonlinear_arith)
            requires
                0 <= rest * e,
                unit >= 1,
        ;
        if value < 0 {
            assert(value * e == -(size * e)) by (nonlinear_arith)
                requires
                    size == -value,
            ;
            assert(size * e >= 0) by (nonlinear_arith)
                requires
                    size >= 0,
                    e >= 0,
            ;
            lemma_trunc_div_odd(size * e, unit as int);
        } else {
            assert(value * e == size * e) by (nonlinear_arith)
                requires
                    size == value,
            ;
            assert(size * e >= 0) by (nonlinear_arith)
                requires
                    size >= 0,
                    e >= 0,
            ;
        }
    }
    let part: u128 = whole * e + (rest * e) / unit;
    if value < 0 {
        -(part as i128)
    } else {
        part as i128
    }
}

fn clamped(value: i128, low: i128, high: i128) -> (r: i128)
    requires
        low <= high,
    ensures
        r == clamp(value as int, low as int, high as int),
{
    if value < low {
        low
    } else if value > high {
        high
    } else {
        value
    }
}

/// One step of a critically damped spring that draws `current` toward
/// `target` over a pass of `delta_time` nanoseconds: the new value and the
/// new velocity, in billionths of a unit and billionths per second. The
/// smoothing time is how long the spring takes, roughly, to arrive;
/// `max_speed` bounds how fast it goes. The step never carries the value
/// past the target, and a step that is not driven backward never ends
/// behind where it began.
pub fn smooth_damp(
    current: i64,
    target: i64,
    velocity: i64,
    smooth_time: u64,
    max_speed: u64,
    delta_time: u64,
) -> (r: (i64, i64))
    requires
        smooth_time > 0,
    ensures
        r == spec_smooth_damp(current, target, velocity, smooth_time, max_speed, delta_time),
        target > current ==> r.0 <= target,
        target <= current ==> r.0 >= target,
        target > current && velocity >= 0 ==> r.0 >= current,
        target < current && velocity <= 0 ==> r.0 <= current,
{
    proof {
        lemma_smooth_damp_never_steps_back(
            current,
            target,
            velocity,
            smooth_time,
            max_speed,
            delta_time,
        );
    }
    let second: i128 = NANOS_PER_SECOND as i128;
    let time: i128 = smooth_time as i128;
    let v: i128 = clamped(velocity as i128, -(MAX_VELOCITY as i128), MAX_VELOCITY as i128);
    let d: i128 = clamped(delta_time as i128, 0, MAX_DELTA as i128);
    proof {
        lemma_trunc_div_bound(2 * d * 1_000_000_000, time as int, 0x200_0000_0000int * 1_000_000_000);
    }
    let x: i128 = clamped((2 * d * 1_000_000_000) / time, 0, MAX_RATIO as i128);
    assert(0 <= max_speed * smooth_time <= 0xffff_ffff_ffff_ffff * 0xffff_ffff_ffff_ffff)
        by (nonlinear_arith)
        requires
            0 <= max_speed <= 0xffff_ffff_ffff_ffff,
            0 <= smooth_time <= 0xffff_ffff_ffff_ffff,
    ;
    let max_change: i128 = ((max_speed as u128) * (smooth_time as u128) / (NANOS_PER_SECOND
        as u128)) as i128;
    let change: i128 = clamped(current as i128 - target as i128, -max_change, max_change);
    let next: i128 = current as i128 - change;
    proof {
        lemma_product_bound(v as int, d as int, 0x4000_0000_0000_0000, 0x100_0000_0000);
        lemma_product_bound(
            change as int,
            x as int,
            0x1_0000_0000_0000_0000,
            1_000_000_000_000_000,
        );
        lemma_trunc_div_bound(v * d, second as int, 0x4000_0000_0000_0000int * 0x100_0000_0000);
        lemma_trunc_div_bound(
            change * x,
            1_000_000_000,
            0x1_0000_0000_0000_0000int * 1_000_000_000_000_000,
        );
        lemma_trunc_div_bound(
            2 * (v * d),
            time as int,
            2 * (0x4000_0000_0000_0000int * 0x100_0000_0000),
        );
        lemma_trunc_div_bound(
            2 * (change * x),
            time as int,
            2 * (0x1_0000_0000_0000_0000int * 1_000_000_000_000_000),
        );
    }
    let drift: i128 = (v * d) / second;
    let pull: i128 = (change * x) / 1_000_000_000;
    let temp: i128 = drift + pull;
    let omega_temp: i128 = (2 * (v * d)) / time + (2 * (change * x)) / time;
    let e: u128 = decay(x as u64);
    let slowed: i128 = decayed(v - omega_temp, e);
    let back: i128 = decayed(change + temp, e);
    proof {
        lemma_product_bound(
            change + temp,
            e as int,
            0x100_0000_0000_0000_0000_0000_0000_0000,
            1_000_000_000_000_000_000,
        );
        lemma_trunc_div_bound(
            (change + temp) * e,
            1_000_000_000_000_000_000,
            0x100_0000_0000_0000_0000_0000_0000_0000int * 1_000_000_000_000_000_000,
        );
    }
    let output: i128 = next + back;
    if (target > current) == (output > target as i128) {
        (target, 0)
    } else {
        (
            clamped(output, i64::MIN as i128, i64::MAX as i128) as i64,
            clamped(slowed, -(MAX_VELOCITY as i128), MAX_VELOCITY as i128) as i64,
        )
    }
}

} // verus!
