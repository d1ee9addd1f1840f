//! The sample processor: scale by the channel's gain, quantise to a whole
//! number of steps, map back and rectify.

use vstd::prelude::*;
use crate::fixed::{lemma_round_div_nearest, magnitude, round_div, round_div_u128, ONE};

verus! {

/// The left channel works with `BOOST_NUM / BOOST_DEN`, 1.05, of the crush
/// value.
pub const BOOST_NUM: i64 = 21;

/// See `BOOST_NUM`.
pub const BOOST_DEN: i64 = 20;

/// The raw value of a gain of 1.0. A gain is counted in twentieths of a
/// Q15.16 step, so that the boosted crush is exact.
pub const GAIN_ONE: i64 = 1_310_720;

/// Raw sample times raw gain of a scaled value of 1.0, `ONE * GAIN_ONE`.
pub const SCALED_ONE: i64 = 85_899_345_920;

/// The gain of a channel at a crush value: the crush itself, or 21/20 of it
/// on channel 0, and never less than the smallest positive gain.
pub open spec fn gain_of(crush: int, channel: int) -> int {
    let gain = if channel == 0 {
        BOOST_NUM * crush
    } else {
        BOOST_DEN * crush
    };
    if gain < 1 {
        1
    } else {
        gain
    }
}

/// The sample scaled by the gain and rounded to a whole number of steps.
pub open spec fn quantized(gain: int, sample: int) -> int {
    round_div(sample * gain, SCALED_ONE as int)
}

/// A number of steps mapped back to a Q15.16 amplitude, to the nearest raw
/// value.
pub open spec fn restored(gain: int, steps: int) -> int {
    round_div(steps * SCALED_ONE, gain)
}

/// The rectified level of a sample at a gain.
pub open spec fn level_at(gain: int, sample: int) -> int {
    magnitude(restored(gain, quantized(gain, sample)))
}

/// The rectified level of a sample on a channel at a crush value.
pub open spec fn crushed(crush: int, channel: int, sample: int) -> int {
    level_at(gain_of(crush, channel), sample)
}

/// The gain that a channel works with. A crush of zero or less, which the
/// crush parameter's range excludes, gives the smallest positive gain, so
/// that mapping back never divides by zero.
pub fn channel_gain(crush: i32, channel: u32) -> (gain: u64)
    ensures
        gain == gain_of(crush as int, channel as int),
        1 <= gain <= BOOST_NUM * i32::MAX,
{
    let wide: i64 = crush as i64;
    let gain: i64 = if channel == 0 {
        BOOST_NUM * wide
    } else {
        BOOST_DEN * wide
    };
    if gain < 1 {
        1
    } else {
        gain as u64
    }
}

/// Scales a sample by a gain and rounds the product to the nearest whole
/// step, a half going away from zero.
pub fn quantize(gain: u64, sample: i32) -> (steps: i64)
    ensures
        steps == quantized(gain as int, sample as int),
{
    let wide: i64 = sample as i64;
    let size: i64 = if wide < 0 {
        -wide
    } else {
        wide
    };
    assert(size as int * gain as int <= 0x8000_0000 * 0xffff_ffff_ffff_ffff) by (nonlinear_arith)
        requires
            0 <= size <= 0x8000_0000,
            gain <= 0xffff_ffff_ffff_ffff,
    ;
    let product: u128 = size as u128 * gain as u128;
    let count: u128 = round_div_u128(product, SCALED_ONE as u128);
    proof {
        lemma_round_div_nearest(sample as int * gain as int, SCALED_ONE as int);
        assert(magnitude(sample as int * gain as int) == size as int * gain as int)
            by (nonlinear_arith)
            requires
                size == magnitude(sample as int),
                gain >= 0,
        ;
        assert(sample < 0 ==> sample as int * gain as int <= 0) by (nonlinear_arith)
            requires
                gain >= 0,
        ;
    }
    if wide < 0 {
        -(count as i64)
    } else {
        count as i64
    }
}

/// Twice the gain times the distance between a level and the sample's
/// magnitude is at most `SCALED_ONE + gain`: the level is off by no more
/// than half a quantisation step and half a raw unit.
pub proof fn lemma_level_is_near(gain: int, sample: int)
    requires
        gain >= 1,
    ensures
        level_at(gain, sample) >= 0,
        2 * gain * magnitude(level_at(gain, sample) - magnitude(sample)) <= SCALED_ONE + gain,
{
    let steps = quantized(gain, sample);
    let level = level_at(gain, sample);
    let size = magnitude(sample);
    let count = magnitude(steps);
    lemma_round_div_nearest(sample * gain, SCALED_ONE as int);
    lemma_round_div_nearest(steps * SCALED_ONE, gain);
    assert(magnitude(sample * gain) == size * gain) by (nonlinear_arith)
        requires
            size == magnitude(sample),
            gain >= 1,
    ;
    assert(magnitude(steps * SCALED_ONE) == count * SCALED_ONE) by (nonlinear_arith)
        requires
            count == magnitude(steps),
    ;
    let scaled = size * gain;
    assert(2 * scaled - SCALED_ONE < 2 * SCALED_ONE * count <= 2 * scaled + SCALED_ONE);
    assert(2 * (count * SCALED_ONE) - gain < 2 * gain * level <= 2 * (count * SCALED_ONE) + gain);
    assert(2 * gain * magnitude(level - size) <= SCALED_ONE + gain) by (nonlinear_arith)
        requires
            scaled == size * gain,
            2 * scaled - SCALED_ONE - gain < 2 * gain * level <= 2 * scaled + SCALED_ONE + gain,
    ;
}

/// At a crush of 20.0 or more, a sample within -1.0 ..= 1.0 gives a level
/// within 0.0 ..= 1.025 on every channel.
pub proof fn lemma_level_is_bounded(crush: int, channel: int, sample: int)
    requires
        20 * ONE <= crush,
        -ONE <= sample <= ONE,
    ensures
        0 <= crushed(crush, channel, sample) <= ONE + ONE / 40,
{
    let gain = gain_of(crush, channel);
    let level = level_at(gain, sample);
    let size = magnitude(sample);
    lemma_level_is_near(gain, sample);
    assert(level - size <= 1638) by (nonlinear_arith)
        requires
            gain >= 400 * 65536,
            2 * gain * magnitude(level - size) <= 85_899_345_920 + gain,
    ;
}

/// The left channel at a crush gives what any other channel gives at 21/20
/// of that crush.
pub proof fn lemma_left_is_boosted(crush: int, boosted: int, channel: int, sample: int)
    requires
        channel != 0,
        BOOST_DEN * boosted == BOOST_NUM * crush,
    ensures
        crushed(crush, 0, sample) == crushed(boosted, channel, sample),
{
}

/// Silence stays silence at every gain.
pub proof fn lemma_silence_is_kept(crush: int, channel: int)
    ensures
        crushed(crush, channel, 0) == 0,
{
    let gain = gain_of(crush, channel);
    assert(0 * gain == 0) by (nonlinear_arith);
    lemma_round_div_nearest(0, SCALED_ONE as int);
    lemma_round_div_nearest(0, gain);
}

/// Crushes one sample: the channel's gain, the product rounded to whole
/// steps, the steps mapped back to an amplitude, and its magnitude. The
/// level is what the saturating stage is then applied to. Rounding to
/// steps loses what lay between them, so an output fed in again does not
/// come out as it was: the effect has no round trip.
pub fn process_sample(crush: i32, channel: u32, sample: i32) -> (level: i64)
    ensures
        level == crushed(crush as int, channel as int, sample as int),
        level >= 0,
        sample == 0 ==> level == 0,
{
    let gain = channel_gain(crush, channel);
    let steps = quantize(gain, sample);
    proof {
        lemma_level_is_near(gain as int, sample as int);
        assert(magnitude(sample as int * gain as int) <= 0x8000_0000 * (BOOST_NUM * i32::MAX))
            by (nonlinear_arith)
            requires
                -0x8000_0000 <= sample <= 0x8000_0000,
                0 <= gain <= BOOST_NUM * i32::MAX,
        ;
        assert(magnitude(steps as int * SCALED_ONE) == magnitude(steps as int) * SCALED_ONE)
            by (nonlinear_arith);
    }
    let count: i64 = if steps < 0 {
        -steps
    } else {
        steps
    };
    let product: u128 = count as u128 * SCALED_ONE as u128;
    let level: u128 = round_div_u128(product, gain as u128);
    proof {
        let g = gain as int;
        let l = level as int;
        let s = magnitude(sample as int);
        assert(l <= s + SCALED_ONE) by (nonlinear_arith)
            requires
                g >= 1,
                l >= 0,
                s >= 0,
                2 * g * magnitude(l - s) <= SCALED_ONE + g,
        ;
        lemma_silence_is_kept(crush as int, channel as int);
    }
    level as i64
}

} // verus!
