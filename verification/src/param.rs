//! The crush parameter: its range, and the linear ramp that carries its
//! smoothed value from where it stands to the target, one step per frame.

use vstd::prelude::*;
use crate::fixed::{clamped, round_div, round_div_u128, ONE};

verus! {

/// How a parameter's smoothed value follows its target.
#[derive(Clone, Copy, Debug, PartialEq, Eq, Structural)]
pub enum Smoothing {
    /// The smoothed value is the target.
    Off,
    /// The smoothed value moves to the target along a straight line.
    Linear,
}

/// What a parameter is made with.
#[derive(Clone, Copy, Debug, PartialEq, Eq, Structural)]
pub struct ParamConfig {
    /// Smallest value, Q15.16.
    pub min: i32,
    /// Largest value, Q15.16.
    pub max: i32,
    /// Value at construction, Q15.16. It is clamped into the range.
    pub default: i32,
    pub smoothing: Smoothing,
    /// Time a ramp takes, in milliseconds.
    pub duration_ms: u32,
}

impl ParamConfig {
    /// The range is not empty.
    pub open spec fn wf(self) -> bool {
        self.min <= self.max
    }

    /// The crush parameter: 20.0 to 50.0, made with 0.0, smoothed linearly
    /// over 50 ms.
    pub open spec fn crush() -> ParamConfig {
        ParamConfig {
            min: (20 * ONE) as i32,
            max: (50 * ONE) as i32,
            default: 0,
            smoothing: Smoothing::Linear,
            duration_ms: 50,
        }
    }

    /// Number of frames a ramp takes at a sample rate in hertz: the duration
    /// in frames, rounded to the nearest whole frame.
    pub open spec fn ramp_steps(self, sample_rate: int) -> int {
        match self.smoothing {
            Smoothing::Off => 0,
            Smoothing::Linear => round_div(sample_rate * self.duration_ms, 1000),
        }
    }
}

impl Default for ParamConfig {
    /// The crush parameter.
    fn default() -> (config: Self)
        ensures
            config == ParamConfig::crush(),
            config.wf(),
    {
        ParamConfig {
            min: 20 * ONE,
            max: 50 * ONE,
            default: 0,
            smoothing: Smoothing::Linear,
            duration_ms: 50,
        }
    }
}

/// The mathematical state of a parameter: a ramp from `start` to `target`
/// that takes `steps` frames, of which `elapsed` have passed.
pub struct Ramp {
    pub config: ParamConfig,
    pub steps: nat,
    pub start: int,
    pub target: int,
    pub elapsed: nat,
}

impl Ramp {
    /// Both ends lie in the parameter's range and the ramp has not run past
    /// its end.
    pub open spec fn wf(self) -> bool {
        &&& self.config.wf()
        &&& self.config.min <= self.start <= self.config.max
        &&& self.config.min <= self.target <= self.config.max
        &&& self.elapsed <= self.steps
    }

    /// The smoothed value: the point on the line from `start` to `target`
    /// at `elapsed / steps` of the way, rounded toward `start`.
    pub open spec fn value(self) -> int {
        if self.elapsed >= self.steps {
            self.target
        } else if self.target >= self.start {
            self.start + ((self.target - self.start) * self.elapsed) / (self.steps as int)
        } else {
            self.start - ((self.start - self.target) * self.elapsed) / (self.steps as int)
        }
    }

    /// A parameter at rest at `value`.
    pub open spec fn resting(config: ParamConfig, steps: nat, value: int) -> Ramp {
        Ramp { config, steps, start: value, target: value, elapsed: steps }
    }

    /// A parameter as it is made: at rest at the configured default clamped
    /// into the range, with ramps that take no time.
    pub open spec fn made(config: ParamConfig) -> Ramp {
        Ramp::resting(
            config,
            0,
            clamped(config.default as int, config.min as int, config.max as int),
        )
    }

    /// The ramp once a full ramp is to take `steps` frames. A parameter at
    /// rest stays at rest; a ramp under way starts anew from the present
    /// value, toward the same target.
    pub open spec fn retimed(self, steps: nat) -> Ramp {
        if self.elapsed >= self.steps {
            Ramp::resting(self.config, steps, self.target)
        } else {
            Ramp { steps, start: self.value(), elapsed: 0, ..self }
        }
    }

    /// A new ramp from the present value to `value` clamped into the range.
    pub open spec fn retarget(self, value: int) -> Ramp {
        Ramp {
            start: self.value(),
            target: clamped(value, self.config.min as int, self.config.max as int),
            elapsed: 0,
            ..self
        }
    }

    /// The ramp after `frames` more frames.
    pub open spec fn advance(self, frames: nat) -> Ramp {
        Ramp {
            elapsed: if self.elapsed + frames >= self.steps {
                self.steps
            } else {
                self.elapsed + frames
            },
            ..self
        }
    }

    /// The smoothed value lies between the two ends of the ramp, and so in
    /// the parameter's range.
    pub proof fn lemma_value_between(self)
        requires
            self.wf(),
        ensures
            self.start <= self.target ==> self.start <= self.value() <= self.target,
            self.start >= self.target ==> self.start >= self.value() >= self.target,
            self.config.min <= self.value() <= self.config.max,
    {
        if self.elapsed < self.steps {
            let span = if self.target >= self.start {
                self.target - self.start
            } else {
                self.start - self.target
            };
            let e = self.elapsed as int;
            let s = self.steps as int;
            assert(0 <= (span * e) / s <= span) by (nonlinear_arith)
                requires
                    0 <= span,
                    0 <= e < s,
            ;
        }
    }

    /// Retiming keeps the configuration and the target. It keeps the
    /// smoothed value too, unless it leaves a ramp under way no frame at
    /// all.
    pub proof fn lemma_retimed_keeps_value(self, steps: nat)
        requires
            self.wf(),
        ensures
            self.retimed(steps).wf(),
            self.retimed(steps).config == self.config,
            self.retimed(steps).target == self.target,
            self.retimed(steps).steps == steps,
            steps > 0 || self.elapsed >= self.steps ==> self.retimed(steps).value()
                == self.value(),
    {
        self.lemma_value_between();
        if self.elapsed < self.steps && steps > 0 {
            let span = if self.target >= self.value() {
                self.target - self.value()
            } else {
                self.value() - self.target
            };
            let s = steps as int;
            assert((span * 0) / s == 0) by (nonlinear_arith)
                requires
                    0 < s,
            ;
        }
    }

    /// Advancing in two goes is advancing once by the sum; a ramp at its
    /// end stays there.
    pub proof fn lemma_advance_adds(self, first: nat, second: nat)
        requires
            self.wf(),
        ensures
            self.advance(first).advance(second) == self.advance(first + second),
            self.advance(0) == self,
            self.advance(first).wf(),
    {
    }

    /// After a retarget the smoothed value starts where it stood, moves
    /// toward the clamped target without ever turning back or passing it,
    /// is the target once `steps` frames have passed and not before, and
    /// stays.
    pub proof fn lemma_ramp_is_monotone(self, value: int, earlier: nat, later: nat)
        requires
            self.wf(),
            earlier <= later,
        ensures
            ({
                let ramp = self.retarget(value);
                let target = clamped(value, self.config.min as int, self.config.max as int);
                let before = ramp.advance(earlier).value();
                let after = ramp.advance(later).value();
                &&& ramp.wf()
                &&& self.steps > 0 ==> ramp.value() == self.value()
                &&& self.value() <= target ==> self.value() <= before <= after <= target
                &&& self.value() >= target ==> self.value() >= before >= after >= target
                &&& later >= self.steps ==> after == target
                &&& later < self.steps && self.value() != target ==> after != target
            }),
    {
        self.lemma_value_between();
        let ramp = self.retarget(value);
        ramp.advance(earlier).lemma_value_between();
        ramp.advance(later).lemma_value_between();
        let span = if ramp.target >= ramp.start {
            ramp.target - ramp.start
        } else {
            ramp.start - ramp.target
        };
        let s = self.steps as int;
        if later < self.steps {
            let e = earlier as int;
            let l = later as int;
            assert((span * e) / s <= (span * l) / s && (span > 0 ==> (span * l) / s < span))
                by (nonlinear_arith)
                requires
                    0 <= span,
                    0 <= e <= l < s,
            ;
        }
        if self.steps > 0 {
            assert((span * 0) / s == 0) by (nonlinear_arith)
                requires
                    0 < s,
            ;
        }
    }
}

/// A parameter with its smoothing state.
pub struct ParamState {
    config: ParamConfig,
    steps: u64,
    start: i32,
    target: i32,
    elapsed: u64,
}

impl View for ParamState {
    type V = Ramp;

    closed spec fn view(&self) -> Ramp {
        Ramp {
            config: self.config,
            steps: self.steps as nat,
            start: self.start as int,
            target: self.target as int,
            elapsed: self.elapsed as nat,
        }
    }
}

impl ParamState {
    /// Holds of every parameter.
    #[verifier::type_invariant]
    pub open spec fn inv(self) -> bool {
        self@.wf()
    }

    /// A parameter at rest at the configured default, clamped into the
    /// range. Until a sample rate is set a ramp takes no time.
    pub fn new(config: ParamConfig) -> (state: ParamState)
        requires
            config.wf(),
        ensures
            state@ == Ramp::made(config),
            state@.wf(),
    {
        let value = if config.default < config.min {
            config.min
        } else if config.default > config.max {
            config.max
        } else {
            config.default
        };
        ParamState { config, steps: 0, start: value, target: value, elapsed: 0 }
    }

    /// Sets the length of a ramp from the sample rate, in hertz. The target
    /// stays, and so does the smoothed value: a parameter at rest stays at
    /// rest, and a ramp under way goes on from where it stands, over the
    /// new length. Only where the new length is no frame at all does a ramp
    /// under way end on the spot.
    pub fn set_sample_rate(&mut self, sample_rate: u32)
        ensures
            final(self)@ == old(self)@.retimed(
                old(self)@.config.ramp_steps(sample_rate as int) as nat,
            ),
            final(self)@.config == old(self)@.config,
            final(self)@.target == old(self)@.target,
            final(self)@.steps == old(self)@.config.ramp_steps(sample_rate as int),
            final(self)@.steps > 0 || old(self)@.elapsed >= old(self)@.steps ==> final(self)@.value()
                == old(self)@.value(),
            final(self)@.wf(),
    {
        proof {
            use_type_invariant(&*self);
        }
        let steps: u64 = match self.config.smoothing {
            Smoothing::Off => 0,
            Smoothing::Linear => {
                assert(sample_rate as int * self.config.duration_ms as int <= 0xffff_ffff
                    * 0xffff_ffff) by (nonlinear_arith)
                    requires
                        sample_rate <= 0xffff_ffff,
                        self.config.duration_ms <= 0xffff_ffff,
                ;
                let frames = round_div_u128(
                    sample_rate as u128 * self.config.duration_ms as u128,
                    1000,
                );
                frames as u64
            },
        };
        proof {
            self@.lemma_retimed_keeps_value(steps as nat);
            self@.lemma_value_between();
        }
        if self.elapsed >= self.steps {
            *self = ParamState {
                config: self.config,
                steps,
                start: self.target,
                target: self.target,
                elapsed: steps,
            };
        } else {
            let start = self.smoothed();
            *self = ParamState {
                config: self.config,
                steps,
                start,
                target: self.target,
                elapsed: 0,
            };
        }
    }

    /// Asks for a new value. It is clamped into the range, and a new ramp
    /// leads to it from the present smoothed value, which does not move.
    /// Only where a ramp takes no frame at all is the smoothed value the
    /// new target at once.
    pub fn set_target(&mut self, value: i32)
        ensures
            final(self)@ == old(self)@.retarget(value as int),
            final(self)@.steps > 0 ==> final(self)@.value() == old(self)@.value(),
            final(self)@.target == clamped(
                value as int,
                old(self)@.config.min as int,
                old(self)@.config.max as int,
            ),
            final(self)@.wf(),
    {
        proof {
            use_type_invariant(&*self);
            self@.lemma_value_between();
            self@.lemma_ramp_is_monotone(value as int, 0, 0);
        }
        let start = self.smoothed();
        let target = if value < self.config.min {
            self.config.min
        } else if value > self.config.max {
            self.config.max
        } else {
            value
        };
        *self = ParamState { config: self.config, steps: self.steps, start, target, elapsed: 0 };
    }

    /// Moves one frame along the ramp and gives the smoothed value there.
    pub fn next_smoothed(&mut self) -> (value: i32)
        ensures
            final(self)@ == old(self)@.advance(1),
            value == final(self)@.value(),
            final(self)@.wf(),
    {
        proof {
            use_type_invariant(&*self);
        }
        if self.elapsed < self.steps {
            *self = ParamState {
                config: self.config,
                steps: self.steps,
                start: self.start,
                target: self.target,
                elapsed: self.elapsed + 1,
            };
        }
        self.smoothed()
    }

    /// The smoothed value where the ramp stands.
    pub fn smoothed(&self) -> (value: i32)
        ensures
            value == self@.value(),
    {
        proof {
            use_type_invariant(self);
            self@.lemma_value_between();
        }
        if self.elapsed >= self.steps {
            self.target
        } else if self.target >= self.start {
            let span: i64 = self.target as i64 - self.start as i64;
            (self.start as i64 + Self::part(span, self.elapsed, self.steps)) as i32
        } else {
            let span: i64 = self.start as i64 - self.target as i64;
            (self.start as i64 - Self::part(span, self.elapsed, self.steps)) as i32
        }
    }

    /// `span * elapsed / steps`, rounded down.
    fn part(span: i64, elapsed: u64, steps: u64) -> (moved: i64)
        requires
            0 <= span <= 0xffff_ffff,
            elapsed < steps,
        ensures
            moved == (span * elapsed) / (steps as int),
            0 <= moved <= span,
    {
        assert(0 <= span * elapsed <= 0xffff_ffff * 0xffff_ffff_ffff_ffff && 0 <= (span * elapsed)
            / (steps as int) <= span) by (nonlinear_arith)
            requires
                0 <= span <= 0xffff_ffff,
                0 <= elapsed < steps <= 0xffff_ffff_ffff_ffff,
        ;
        let product: u128 = span as u128 * elapsed as u128;
        (product / steps as u128) as i64
    }

    /// The value that the ramp leads to.
    pub fn target(&self) -> (value: i32)
        ensures
            value == self@.target,
    {
        self.target
    }

    /// Number of frames until the smoothed value is the target.
    pub fn steps_left(&self) -> (frames: u64)
        ensures
            frames == self@.steps - self@.elapsed,
    {
        proof {
            use_type_invariant(self);
        }
        self.steps - self.elapsed
    }

    /// What the parameter was made with.
    pub fn config(&self) -> (config: ParamConfig)
        ensures
            config == self@.config,
    {
        self.config
    }
}

} // verus!
