use lazy_archdemon::utils::{smooth_damp, FINE, MAX_DELTA, MAX_RATIO, MAX_VELOCITY};

/// A billion: the steps of the smoothing to a unit, and the nanoseconds to a
/// second.
const B: u64 = 1_000_000_000;
const U: i64 = 1_000_000_000;

/// The step of the spring as the formula gives it, in floats: units,
/// units a second and seconds.
fn formula(
    current: f64,
    target: f64,
    velocity: f64,
    smooth_time: f64,
    max_speed: f64,
    delta_time: f64,
) -> (f64, f64) {
    let omega = 2.0 / smooth_time;
    let x = omega * delta_time;
    let exp = 1.0 / (1.0 + x + 0.48 * x * x + 0.235 * x * x * x);
    let max_change = max_speed * smooth_time;
    let change = (current - target).clamp(-max_change, max_change);
    let next = current - change;
    let temp = (velocity + omega * change) * delta_time;
    let slowed = (velocity - omega * temp) * exp;
    let output = next + (change + temp) * exp;
    if (target > current) == (output > target) {
        (target, 0.0)
    } else {
        (output, slowed)
    }
}

/// The step of the library on the same inputs, brought back to floats.
fn step(
    current: f64,
    target: f64,
    velocity: f64,
    smooth_time: f64,
    max_speed: f64,
    delta_time: f64,
) -> (f64, f64) {
    let fine = |x: f64| (x * 1e9).round() as i64;
    let (value, speed) = smooth_damp(
        fine(current),
        fine(target),
        fine(velocity),
        fine(smooth_time) as u64,
        fine(max_speed) as u64,
        fine(delta_time) as u64,
    );
    (value as f64 / 1e9, speed as f64 / 1e9)
}

#[test]
fn the_smoothing_reckons_in_billionths() {
    assert_eq!(FINE, 1_000_000_000);
    assert_eq!(MAX_DELTA, 1 << 40);
    assert_eq!(MAX_VELOCITY, 1 << 62);
    assert_eq!(MAX_RATIO, 1_000_000 * FINE);
}

#[test]
fn half_a_smoothing_time_toward_a_target_one_unit_away() {
    // The frequency is two a second and the pass lasts half a second, so
    // the decay is one over 1 + 1 + 0.48 + 0.235; the way left is one unit
    // and the spring, at rest before, pulls with two units a second.
    assert_eq!(smooth_damp(0, U, 0, B, 10 * B, B / 2), (263_351_750, 736_648_250));
    assert_eq!(smooth_damp(U, 0, 0, B, 10 * B, B / 2), (736_648_250, -736_648_250));
}

#[test]
fn a_pass_of_a_second_at_two_seconds_of_smoothing() {
    // The frequency is one a second and the ratio one: the value comes to
    // one less twice the decay, the velocity to the decay.
    assert_eq!(smooth_damp(0, U, 0, 2 * B, 100 * B, B), (263_351_750, 368_324_125));
    let (value, speed) = step(0.0, 1.0, 0.0, 2.0, 100.0, 1.0);
    assert!((value - 0.263352).abs() < 1e-6);
    assert!((speed - 0.368324).abs() < 1e-6);
}

#[test]
fn the_way_left_counts_for_no_more_than_the_speed_allows() {
    // At ten units a second and a second of smoothing the way counts as ten
    // units, be the target ten, a hundred or a thousand units away.
    let ten = smooth_damp(0, 10 * U, 0, B, 10 * B, B / 2);
    assert_eq!(ten, (2_633_517_496, 7_366_482_504));
    assert_eq!(smooth_damp(0, 100 * U, 0, B, 10 * B, B / 2), ten);
    assert_eq!(smooth_damp(0, 1000 * U, 0, B, 10 * B, B / 2), ten);
    let (value, speed) = step(0.0, 100.0, 0.0, 1.0, 10.0, 0.5);
    assert!((value - 2.633517).abs() < 1e-6);
    assert!((speed - 7.366483).abs() < 1e-6);
    assert_eq!(smooth_damp(0, 1000 * U, 0, B, 10 * B, B / 10), (172_634_062, 3_275_788_646));
    assert_eq!(smooth_damp(0, -2000 * U, 0, B, 10 * B, B / 10), (-172_634_062, -3_275_788_646));
}

#[test]
fn a_short_pass_of_a_camera() {
    // Twenty units to go at half a second of smoothing and ten units a
    // second: the sixtieth of a second covers a hundredth of a unit.
    assert_eq!(smooth_damp(0, 20 * U, 0, B / 2, 10 * B, 16_666_667), (10_305_107, 1_247_423_746));
    assert_eq!(smooth_damp(0, 20 * U, 0, B / 2, 10 * B, 2_100_000), (168_619, 166_594_936));
}

#[test]
fn a_very_short_pass_still_goes_forward() {
    // A thousand units to go, a second of smoothing, and a pass of five
    // and a half thousandths of a second: the spring covers 0.0567 units.
    let far = 1000 * U;
    assert_eq!(smooth_damp(0, far, 0, B, 10_000 * B, 5_450_000), (56_711_723, 21_563_719_145));
    assert_eq!(smooth_damp(0, -far, 0, B, 10_000 * B, 5_450_000), (-56_711_723, -21_563_719_145));
}

#[test]
fn a_step_past_the_target_ends_on_it() {
    assert_eq!(smooth_damp(0, 10_000_000, 100 * U, B, 10 * B, B), (10_000_000, 0));
    assert_eq!(smooth_damp(0, -10_000_000, -100 * U, B, 10 * B, B), (-10_000_000, 0));
}

#[test]
fn at_rest_on_the_target_nothing_moves() {
    assert_eq!(smooth_damp(500, 500, 0, B, 10 * B, B / 2), (500, 0));
    assert_eq!(smooth_damp(-7, -7, 0, 1, u64::MAX, u64::MAX), (-7, 0));
}

#[test]
fn a_pass_without_duration_moves_nothing() {
    assert_eq!(smooth_damp(3, 900, 41, B, 10 * B, 0), (3, 41));
    assert_eq!(smooth_damp(900, 3, -41, 1, 0, 0), (900, -41));
    assert_eq!(smooth_damp(5, 6, i64::MAX, 1, 0, 0), (5, MAX_VELOCITY));
    assert_eq!(smooth_damp(5, 5, i64::MAX, 1, 0, 0), (5, 0));
}

#[test]
fn without_speed_the_spring_does_not_pull() {
    // The way left counts for nothing, so only the velocity carries on,
    // decayed.
    assert_eq!(smooth_damp(0, U, 0, B, 0, B / 2), (0, 0));
    assert_eq!(smooth_damp(0, 100 * U, 2 * U, B, 0, B / 2), (368_324_125, 0));
}

#[test]
fn a_value_driven_away_backs_off() {
    assert_eq!(
        smooth_damp(0, U, -50 * U, B, 10 * B, B / 10),
        (-4_077_472_401, -32_430_307_596)
    );
}

#[test]
fn a_pass_far_longer_than_the_smoothing_time() {
    // The ratio counts as a million at most; the decay is next to nothing.
    assert_eq!(smooth_damp(0, U, 0, 1, 10 * B, B), (10, 0));
    assert_eq!(smooth_damp(0, U, 7 * U, 1000, 10 * B, B), (10_000, 0));
}

#[test]
fn the_step_meets_the_formula() {
    let places = [-250.0, -3.5, 0.0, 0.001, 1.0, 20.0, 999.0];
    let speeds = [-40.0, -1.0, 0.0, 0.5, 12.0];
    let smooths = [0.01, 0.1, 0.5, 1.0, 2.0, 30.0];
    let passes = [0.0001, 0.0021, 0.00545, 0.016, 0.1, 0.5, 1.0, 3.0];
    let limits = [0.0, 0.25, 10.0, 100.0, 10_000.0];
    let mut steps = 0;
    for current in places {
        for target in places {
            for velocity in speeds {
                for smooth_time in smooths {
                    for delta_time in passes {
                        for max_speed in limits {
                            let exact =
                                formula(current, target, velocity, smooth_time, max_speed, delta_time);
                            let held =
                                step(current, target, velocity, smooth_time, max_speed, delta_time);
                            // Where the formula ends a hair's breadth from the
                            // target, either side of the guard is as good.
                            if (exact.0 - target).abs() < 1e-7 {
                                continue;
                            }
                            assert!((held.0 - exact.0).abs() < 1e-7);
                            assert!((held.1 - exact.1).abs() < 1e-5);
                            steps += 1;
                        }
                    }
                }
            }
        }
    }
    assert!(steps > 10_000);
}

#[test]
fn smoothing_never_passes_the_target() {
    let places = [i64::MIN, -1_000_000 * U, -1000, -1, 0, 1, 999, U, 123_456_789 * U, i64::MAX];
    let speeds = [i64::MIN, -MAX_VELOCITY, -50 * U, -1, 0, 1, 50 * U, MAX_VELOCITY, i64::MAX];
    let times = [1, 1000, B / 60, B / 2, B, 90 * B, MAX_DELTA, u64::MAX];
    for current in places {
        for target in places {
            for velocity in speeds {
                for smooth_time in times {
                    for delta in times {
                        for max_speed in [0, 1, 10 * B, u64::MAX] {
                            let (value, speed) =
                                smooth_damp(current, target, velocity, smooth_time, max_speed, delta);
                            if target > current {
                                assert!(value <= target);
                            } else {
                                assert!(value >= target);
                            }
                            assert!(-MAX_VELOCITY <= speed && speed <= MAX_VELOCITY);
                        }
                    }
                }
            }
        }
    }
}

#[test]
fn smoothing_never_steps_back() {
    let places = [i64::MIN, -1_000_000 * U, -U, -1, 0, 1, 999, 20 * U, i64::MAX];
    let speeds = [0i64, 1, 41, 2 * U, 50 * U, 1_000_000 * U, MAX_VELOCITY, i64::MAX];
    let smooths = [1u64, 1000, 1_000_000, B / 2, B, 90 * B, u64::MAX];
    let passes = [0u64, 1, 1000, 250_000, 2_100_000, 5_450_000, 16_666_667, B, MAX_DELTA];
    for current in places {
        for target in places {
            for speed in speeds {
                for smooth_time in smooths {
                    for delta in passes {
                        for max_speed in [0, 1, 10 * B, 10_000 * B, u64::MAX] {
                            // The velocity points at the target or is nothing.
                            let velocity = if target > current { speed } else { -speed };
                            let (value, _) =
                                smooth_damp(current, target, velocity, smooth_time, max_speed, delta);
                            if target > current {
                                assert!(current <= value && value <= target);
                            } else if target < current {
                                assert!(target <= value && value <= current);
                            }
                        }
                    }
                }
            }
        }
    }
}

#[test]
fn smoothing_arrives_in_the_end() {
    let target = 20 * U;
    let mut value: i64 = 0;
    let mut velocity: i64 = 0;
    let mut passes = 0;
    while value != target && passes < 10_000 {
        let (next, speed) = smooth_damp(value, target, velocity, B / 2, 10 * B, 16_666_667);
        assert!(next >= value);
        value = next;
        velocity = speed;
        passes += 1;
    }
    assert_eq!(value, target);
    assert_eq!(passes, 434);
}
