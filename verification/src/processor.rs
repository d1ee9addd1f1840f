//! The block loop: one step of the crush ramp per frame, and every sample
//! of the frame crushed at that value.

use vstd::prelude::*;
use crate::crusher::{crushed, process_sample};
use crate::param::{ParamConfig, ParamState, Ramp};

verus! {

/// Number of frames among `len` interleaved samples of `channels` channels.
/// Samples left over after the last whole frame make a short frame.
pub open spec fn frames_in(len: nat, channels: nat) -> nat {
    if channels == 0 {
        0
    } else {
        ((len + channels - 1) / (channels as int)) as nat
    }
}

/// The level of sample `i` of an interleaved block that is processed from
/// the state `ramp`: the sample lies in frame `i / channels` on channel
/// `i % channels`, and its frame is crushed at the value that the ramp has
/// after one step for each frame up to and including this one.
pub open spec fn level_in_block(ramp: Ramp, channels: nat, input: Seq<i32>, i: int) -> int {
    crushed(
        ramp.advance((i / (channels as int) + 1) as nat).value(),
        i % (channels as int),
        input[i] as int,
    )
}

/// Sample `frame * channels + channel` lies in that frame on that channel,
/// and up to there the block holds `frame + 1` frames.
proof fn lemma_position(frame: nat, channel: nat, channels: nat)
    requires
        channel < channels,
    ensures
        ((frame * channels + channel) as int) / (channels as int) == frame,
        ((frame * channels + channel) as int) % (channels as int) == channel,
        frames_in(frame * channels + channel + 1, channels) == frame + 1,
        frames_in(frame * channels, channels) == frame,
{
    let c = channels as int;
    let f = frame as int;
    let k = channel as int;
    assert((f * c + k) / c == f && (f * c + k) % c == k && (f * c + k + 1 + c - 1) / c == f + 1 && (
    f * c + c - 1) / c == f) by (nonlinear_arith)
        requires
            0 <= k < c,
            0 <= f,
    ;
}

/// The effect: the crush parameter and the loop that applies it.
pub struct Bitcrusher {
    pub crush: ParamState,
}

impl Bitcrusher {
    /// An effect whose crush is made with `config`.
    pub fn new(config: ParamConfig) -> (effect: Bitcrusher)
        requires
            config.wf(),
        ensures
            effect.crush@ == Ramp::made(config),
    {
        Bitcrusher { crush: ParamState::new(config) }
    }

    /// Takes the sample rate, in hertz. It always succeeds. The crush
    /// keeps its target and its smoothed value; only the length of a ramp
    /// is set, as `ParamState::set_sample_rate` does.
    pub fn initialize(&mut self, sample_rate: u32) -> (ready: bool)
        ensures
            ready,
            final(self).crush@ == old(self).crush@.retimed(
                old(self).crush@.config.ramp_steps(sample_rate as int) as nat,
            ),
            final(self).crush@.config == old(self).crush@.config,
            final(self).crush@.target == old(self).crush@.target,
            final(self).crush@.steps == old(self).crush@.config.ramp_steps(sample_rate as int),
            final(self).crush@.steps > 0 || old(self).crush@.elapsed >= old(self).crush@.steps
                ==> final(self).crush@.value() == old(self).crush@.value(),
    {
        self.crush.set_sample_rate(sample_rate);
        true
    }

    /// Processes a block of interleaved samples. The crush ramp moves one
    /// step at the start of each frame; each sample of the frame is then
    /// crushed at that value, channel 0 with the boosted gain. The levels
    /// replace what `output` held, in the order of the samples. With no
    /// channels there are no frames: nothing moves and `output` is empty.
    pub fn process_block(&mut self, input: &Vec<i32>, channels: u32, output: &mut Vec<i64>)
        ensures
            final(self).crush@ == old(self).crush@.advance(
                frames_in(input@.len(), channels as nat),
            ),
            final(output)@.len() == (if channels == 0 {
                0
            } else {
                input@.len()
            }),
            forall|i: int|
                0 <= i < final(output)@.len() ==> #[trigger] final(output)@[i] == level_in_block(
                    old(self).crush@,
                    channels as nat,
                    input@,
                    i,
                ),
    {
        proof {
            use_type_invariant(&self.crush);
            self.crush@.lemma_advance_adds(0, 0);
        }
        output.clear();
        if channels == 0 {
            return ;
        }
        let ghost before = self.crush@;
        let ghost mut frame: nat = 0;
        let n = input.len();
        let mut pos: usize = 0;
        proof {
            lemma_position(0, 0, channels as nat);
        }
        while pos < n
            invariant
                channels > 0,
                n == input@.len(),
                pos <= n,
                pos < n ==> pos == frame * channels,
                frame == frames_in(pos as nat, channels as nat),
                before.wf(),
                self.crush@ == before.advance(frame),
                output@.len() == pos,
                forall|i: int|
                    0 <= i < pos ==> #[trigger] output@[i] == level_in_block(
                        before,
                        channels as nat,
                        input@,
                        i,
                    ),
            decreases n - pos,
        {
            let crush = self.crush.next_smoothed();
            proof {
                before.lemma_advance_adds(frame, 1);
            }
            let mut channel: u32 = 0;
            while channel < channels && pos < n
                invariant
                    channels > 0,
                    n == input@.len(),
                    channel <= channels,
                    pos <= n,
                    channel == 0 ==> pos < n,
                    pos == frame * channels + channel,
                    crush == before.advance(frame + 1).value(),
                    output@.len() == pos,
                    forall|i: int|
                        0 <= i < pos ==> #[trigger] output@[i] == level_in_block(
                            before,
                            channels as nat,
                            input@,
                            i,
                        ),
                decreases n - pos,
            {
                let level = process_sample(crush, channel, input[pos]);
                proof {
                    lemma_position(frame, channel as nat, channels as nat);
                }
                output.push(level);
                channel += 1;
                pos += 1;
            }
            proof {
                lemma_position(frame, (channel - 1) as nat, channels as nat);
                assert((frame + 1) * channels == frame * channels + channels) by (nonlinear_arith);
                frame = frame + 1;
            }
        }
    }
}

impl Default for Bitcrusher {
    /// The effect with the crush parameter of `ParamConfig::default`.
    fn default() -> (effect: Bitcrusher)
        ensures
            effect.crush@ == Ramp::made(ParamConfig::crush()),
    {
        Bitcrusher::new(ParamConfig::default())
    }
}

} // verus!
