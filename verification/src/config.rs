//! The immutable configuration of the simulation.
//!
//! All knobs are plain integers; probabilities and the decay scalar are
//! rationals `num / den`.  An invalid configuration is rejected when it is
//! validated, before the simulation starts, never at tick time.
use vstd::prelude::*;

verus! {

/// A probability as a rational `num / den` with `0 <= num <= den`,
/// `den > 0`.  A trial succeeds when a uniform draw from `[0, den)` falls
/// below `num`.
#[derive(Clone, Copy, PartialEq, Eq, Structural, Debug)]
pub struct Prob {
    pub num: u32,
    pub den: u32,
}

impl Prob {
    pub open spec fn wf(self) -> bool {
        0 < self.den && self.num <= self.den
    }

    /// Probability zero: the trial never succeeds.
    pub open spec fn is_never(self) -> bool {
        self.num == 0
    }

    /// Probability one: the trial always succeeds.
    pub open spec fn is_always(self) -> bool {
        self.num == self.den
    }
}

/// The flat parameter set steering the simulation and the renderer.
#[derive(Clone, Copy, PartialEq, Eq, Structural, Debug)]
pub struct Config {
    /// Chance per cell and tick that a non-black cell's symbol is re-rolled.
    pub prob_symbol_change: Prob,
    /// Chance per cell and tick that the green channel is set to `glow_value`.
    pub prob_glow: Prob,
    /// Chance per cell and tick that the green channel is set to `dim_value`.
    pub prob_dim: Prob,
    /// Chance per cell and tick that a lit green channel decays.
    pub prob_decay: Prob,
    /// Chance per tick that a new streak is spawned.
    pub prob_drop: Prob,
    /// Green brightness written by a glow event.
    pub glow_value: u8,
    /// Green brightness written by a dim event.
    pub dim_value: u8,
    /// Decay scalar `decay_num / decay_den`, strictly below one.
    pub decay_num: u32,
    pub decay_den: u32,
    /// Bounds of the visible part of a streak, both inclusive.
    pub min_drop_len: u16,
    pub max_drop_len: u16,
    /// Trailing gap appended to every streak.
    pub drop_space_len: u16,
    /// Number of discrete brightness steps of a streak's ramp.
    pub drop_segments: u32,
    /// Bounds of a streak's fall interval in ticks, both inclusive.
    pub min_drop_fall_int: u16,
    pub max_drop_fall_int: u16,
    /// Target frame rate; zero means "as fast as possible".
    pub fps: u16,
    /// Step of an interactive frame-rate change.
    pub fps_step: u16,
    /// Capacity of the frame handoff channel.
    pub channel_size: usize,
    /// Narrow mode: one terminal column per cell, glyphs padded with a
    /// trailing space.  Otherwise a cell spans two terminal columns.
    pub half_width: bool,
}

impl Config {
    /// All five probabilities are valid rationals.
    pub open spec fn probs_wf(self) -> bool {
        &&& self.prob_symbol_change.wf()
        &&& self.prob_glow.wf()
        &&& self.prob_dim.wf()
        &&& self.prob_decay.wf()
        &&& self.prob_drop.wf()
    }

    /// The decay scalar lies in `[0, 1)`.
    pub open spec fn decay_wf(self) -> bool {
        0 < self.decay_den && self.decay_num < self.decay_den
    }

    /// The streak length range is non-empty and excludes zero.
    pub open spec fn len_range_wf(self) -> bool {
        1 <= self.min_drop_len && self.min_drop_len <= self.max_drop_len
    }

    /// The fall interval range is non-empty and excludes zero.
    pub open spec fn fall_range_wf(self) -> bool {
        1 <= self.min_drop_fall_int && self.min_drop_fall_int <= self.max_drop_fall_int
    }

    pub open spec fn wf(self) -> bool {
        &&& self.probs_wf()
        &&& self.decay_wf()
        &&& self.len_range_wf()
        &&& self.fall_range_wf()
        &&& 1 <= self.drop_segments
        &&& 1 <= self.channel_size
    }
}

/// Why a configuration was rejected.
#[derive(Clone, Copy, PartialEq, Eq, Structural, Debug)]
pub enum ConfigError {
    /// Some probability has `den == 0` or `num > den`.
    InvalidProbability,
    /// The decay scalar is not strictly between zero (inclusive) and one.
    InvalidDecayScalar,
    /// The streak length range is empty or allows length zero.
    InvalidDropLenRange,
    /// The fall interval range is empty or allows interval zero.
    InvalidFallIntRange,
    /// The ramp must have at least one brightness step.
    InvalidSegments,
    /// The frame handoff channel must hold at least one frame.
    InvalidChannelSize,
}

impl Config {
    /// Check every parameter range, reporting the first violation in the
    /// order of the fields.  Succeeds exactly on well-formed configurations,
    /// and each error comes exactly when its check is the first to fail.
    pub fn validate(&self) -> (r: Result<(), ConfigError>)
        ensures
            r is Ok <==> self.wf(),
            r == Result::<(), ConfigError>::Err(ConfigError::InvalidProbability)
                <==> !self.probs_wf(),
            r == Result::<(), ConfigError>::Err(ConfigError::InvalidDecayScalar) <==> self.probs_wf()
                && !self.decay_wf(),
            r == Result::<(), ConfigError>::Err(ConfigError::InvalidDropLenRange) <==> self.probs_wf()
                && self.decay_wf() && !self.len_range_wf(),
            r == Result::<(), ConfigError>::Err(ConfigError::InvalidFallIntRange) <==> self.probs_wf()
                && self.decay_wf() && self.len_range_wf() && !self.fall_range_wf(),
            r == Result::<(), ConfigError>::Err(ConfigError::InvalidSegments) <==> self.probs_wf()
                && self.decay_wf() && self.len_range_wf() && self.fall_range_wf()
                && self.drop_segments == 0,
            r == Result::<(), ConfigError>::Err(ConfigError::InvalidChannelSize) <==> self.probs_wf()
                && self.decay_wf() && self.len_range_wf() && self.fall_range_wf() && 1
                <= self.drop_segments && self.channel_size == 0,
    {
        if !(prob_ok(self.prob_symbol_change) && prob_ok(self.prob_glow) && prob_ok(self.prob_dim)
            && prob_ok(self.prob_decay) && prob_ok(self.prob_drop)) {
            Err(ConfigError::InvalidProbability)
        } else if !(0 < self.decay_den && self.decay_num < self.decay_den) {
            Err(ConfigError::InvalidDecayScalar)
        } else if !(1 <= self.min_drop_len && self.min_drop_len <= self.max_drop_len) {
            Err(ConfigError::InvalidDropLenRange)
        } else if !(1 <= self.min_drop_fall_int && self.min_drop_fall_int
            <= self.max_drop_fall_int) {
            Err(ConfigError::InvalidFallIntRange)
        } else if self.drop_segments == 0 {
            Err(ConfigError::InvalidSegments)
        } else if self.channel_size == 0 {
            Err(ConfigError::InvalidChannelSize)
        } else {
            Ok(())
        }
    }
}

fn prob_ok(p: Prob) -> (r: bool)
    ensures
        r == p.wf(),
{
    0 < p.den && p.num <= p.den
}

impl Default for Config {
    /// The stock parameter set of the animation.
    fn default() -> (c: Config)
        ensures
            c.wf(),
            c.prob_symbol_change == (Prob { num: 40, den: 1000 }),
            c.prob_glow == (Prob { num: 7, den: 1000 }),
            c.prob_dim == (Prob { num: 3, den: 1000 }),
            c.prob_decay == (Prob { num: 160, den: 1000 }),
            c.prob_drop == (Prob { num: 2, den: 1000 }),
            c.glow_value == 0x6e,
            c.dim_value == 0x66,
            c.decay_num == 9 && c.decay_den == 10,
            c.min_drop_len == 30 && c.max_drop_len == 40,
            c.drop_space_len == 10,
            c.drop_segments == 6,
            c.min_drop_fall_int == 1 && c.max_drop_fall_int == 3,
            c.fps == 60,
            c.fps_step == 10,
            c.channel_size == 1,
            c.half_width == false,
    {
        Config {
            prob_symbol_change: Prob { num: 40, den: 1000 },
            prob_glow: Prob { num: 7, den: 1000 },
            prob_dim: Prob { num: 3, den: 1000 },
            prob_decay: Prob { num: 160, den: 1000 },
            prob_drop: Prob { num: 2, den: 1000 },
            glow_value: 0x6e,
            dim_value: 0x66,
            decay_num: 9,
            decay_den: 10,
            min_drop_len: 30,
            max_drop_len: 40,
            drop_space_len: 10,
            drop_segments: 6,
            min_drop_fall_int: 1,
            max_drop_fall_int: 3,
            fps: 60,
            fps_step: 10,
            channel_size: 1,
            half_width: false,
        }
    }
}

} // verus!
