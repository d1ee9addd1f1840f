use dontpanic::crusher::{channel_gain, process_sample, quantize, GAIN_ONE, SCALED_ONE};
use dontpanic::fixed::ONE;

/// The saturating stage that a caller applies to a level.
fn saturate(level: i64) -> f64 {
    (level as f64 / ONE as f64).tanh()
}

fn to_fixed(value: f64) -> i32 {
    (value * ONE as f64).round() as i32
}

#[test]
fn constants_agree() {
    assert_eq!(GAIN_ONE, 20 * ONE as i64);
    assert_eq!(SCALED_ONE, ONE as i64 * GAIN_ONE);
}

#[test]
fn right_channel_at_twenty() {
    let crush: i32 = 20 * ONE;
    let sample: i32 = ONE / 2;
    let gain: u64 = channel_gain(crush, 1);
    assert_eq!(gain, 20 * GAIN_ONE as u64);
    assert_eq!(quantize(gain, sample), 10);
    let level: i64 = process_sample(crush, 1, sample);
    assert_eq!(level, 32768);
    let out: f64 = saturate(level);
    assert!((out - 0.4621).abs() < 1e-4);
    assert!((out - 0.5f64.tanh()).abs() < 1e-12);
}

#[test]
fn left_channel_at_twenty() {
    let crush: i32 = 20 * ONE;
    let sample: i32 = ONE / 2;
    let gain: u64 = channel_gain(crush, 0);
    assert_eq!(gain, 21 * GAIN_ONE as u64);
    // 10.5 steps: the half goes away from zero
    assert_eq!(quantize(gain, sample), 11);
    let level: i64 = process_sample(crush, 0, sample);
    assert_eq!(level, 34328);
    let restored: f64 = level as f64 / ONE as f64;
    assert!((restored - 0.5238).abs() < 1e-4);
    assert!((restored - 11.0 / 21.0).abs() < 1.0 / ONE as f64);
    let out: f64 = saturate(level);
    assert!((out - 0.4802).abs() < 5e-4);
    assert!((out - (11.0f64 / 21.0).tanh()).abs() < 1e-5);
}

#[test]
fn silence_is_preserved() {
    let crushes: [i32; 7] = [20 * ONE, 35 * ONE, 50 * ONE, 1, 0, -ONE, i32::MAX];
    for crush in crushes {
        for channel in 0..3u32 {
            assert_eq!(quantize(channel_gain(crush, channel), 0), 0);
            let level: i64 = process_sample(crush, channel, 0);
            assert_eq!(level, 0);
            assert_eq!(saturate(level), 0.0);
        }
    }
}

#[test]
fn half_goes_away_from_zero_below_zero() {
    let gain: u64 = channel_gain(20 * ONE, 0);
    assert_eq!(quantize(gain, -ONE / 2), -11);
    assert_eq!(process_sample(20 * ONE, 0, -ONE / 2), 34328);
}

#[test]
fn just_under_a_half_goes_down() {
    // 0.025 at a gain of 20.0 is half a step; one raw unit less is under it
    let half_step: i32 = 1639;
    assert_eq!(quantize(channel_gain(20 * ONE, 1), half_step), 1);
    assert_eq!(quantize(channel_gain(20 * ONE, 1), half_step - 1), 0);
    assert_eq!(process_sample(20 * ONE, 1, half_step), 3277);
    assert_eq!(process_sample(20 * ONE, 1, half_step - 1), 0);
}

#[test]
fn level_is_the_magnitude() {
    let samples: [i32; 6] = [1, 1639, 12345, 40000, ONE, i32::MAX];
    for sample in samples {
        for channel in 0..2u32 {
            let up: i64 = process_sample(30 * ONE, channel, sample);
            let down: i64 = process_sample(30 * ONE, channel, -sample);
            assert_eq!(up, down);
            assert!(up >= 0);
        }
    }
}

#[test]
fn exact_levels() {
    assert_eq!(quantize(channel_gain(30 * ONE, 1), 40000), 18);
    assert_eq!(process_sample(30 * ONE, 1, 40000), 39322);
    assert_eq!(process_sample(30 * ONE, 0, 40000), 39530);
    assert_eq!(process_sample(25 * ONE + 7, 0, -12345), 12483);
    assert_eq!(process_sample(50 * ONE, 0, ONE), 66160);
    assert_eq!(process_sample(50 * ONE, 1, -ONE), 65536);
}

#[test]
fn output_lies_in_unit_range() {
    let mut crush: i32 = 20 * ONE;
    while crush <= 50 * ONE {
        let mut sample: i32 = -ONE;
        while sample <= ONE {
            for channel in 0..2u32 {
                let level: i64 = process_sample(crush, channel, sample);
                assert!(level >= 0);
                assert!(level <= (ONE + ONE / 40) as i64);
                let out: f64 = saturate(level);
                assert!(out >= 0.0 && out < 1.0);
            }
            sample += 257;
        }
        crush += 3 * ONE / 4 + 1;
    }
}

#[test]
fn largest_overshoot_at_twenty() {
    // half a step of 1/20 is 0.025: a sample just over it gives a whole step
    let level: i64 = process_sample(20 * ONE, 1, 1639);
    assert_eq!(level - 1639, (ONE / 40) as i64);
}

#[test]
fn level_is_within_half_a_step_of_the_sample() {
    let crushes: [i32; 4] = [20 * ONE, 27 * ONE + 123, 41 * ONE, 50 * ONE];
    for crush in crushes {
        for channel in 0..2u32 {
            let gain: i128 = channel_gain(crush, channel) as i128;
            let mut sample: i32 = -3 * ONE;
            while sample <= 3 * ONE {
                let level: i128 = process_sample(crush, channel, sample) as i128;
                let size: i128 = (sample as i128).abs();
                assert!(2 * gain * (level - size).abs() <= SCALED_ONE as i128 + gain);
                sample += 1013;
            }
        }
    }
}

#[test]
fn left_equals_right_at_boosted_crush() {
    // 21/20 of the crush is on the grid when the crush is a multiple of 20
    let crushes: [i32; 4] = [20 * ONE, 30 * ONE, 40 * ONE + 20, 47 * ONE + 8];
    for crush in crushes {
        let boosted: i32 = crush / 20 * 21;
        assert_eq!(channel_gain(crush, 0), channel_gain(boosted, 1));
        let mut sample: i32 = -2 * ONE;
        while sample <= 2 * ONE {
            assert_eq!(process_sample(crush, 0, sample), process_sample(boosted, 1, sample));
            assert_eq!(process_sample(crush, 0, sample), process_sample(boosted, 7, sample));
            sample += 911;
        }
    }
}

#[test]
fn only_channel_zero_is_boosted() {
    assert_eq!(channel_gain(20 * ONE, 0), 27_525_120);
    assert_eq!(channel_gain(20 * ONE, 1), 26_214_400);
    assert_eq!(channel_gain(20 * ONE, 2), 26_214_400);
    assert_eq!(channel_gain(20 * ONE, u32::MAX), 26_214_400);
}

#[test]
fn reapplying_changes_the_output() {
    // the processor followed by the saturating stage is lossy: no round trip
    let first: f64 = saturate(process_sample(20 * ONE, 1, ONE / 2));
    let second: f64 = saturate(process_sample(20 * ONE, 1, to_fixed(first)));
    assert!((first - 0.4621).abs() < 1e-4);
    assert!((second - 0.4219).abs() < 1e-4);
    assert!((first - second).abs() > 0.03);
}

#[test]
fn crush_of_zero_or_less_is_guarded() {
    assert_eq!(channel_gain(0, 0), 1);
    assert_eq!(channel_gain(0, 1), 1);
    assert_eq!(channel_gain(-5, 0), 1);
    assert_eq!(channel_gain(i32::MIN, 1), 1);
    assert_eq!(channel_gain(1, 1), 20);
    assert_eq!(channel_gain(1, 0), 21);
    assert_eq!(process_sample(0, 1, i32::MAX), 0);
    assert_eq!(process_sample(-5, 0, 12345), 0);
    assert_eq!(process_sample(i32::MIN, 0, i32::MIN), 0);
}

#[test]
fn extreme_values_do_not_overflow() {
    assert_eq!(channel_gain(i32::MAX, 0), 21 * (i32::MAX as u64));
    assert_eq!(process_sample(i32::MAX, 0, i32::MIN), 2_147_483_649);
    assert_eq!(quantize(u64::MAX, i32::MIN), -461_168_601_842_738_790);
    assert_eq!(quantize(u64::MAX, i32::MAX), 461_168_601_627_990_426);
    assert_eq!(quantize(0, i32::MAX), 0);
}
