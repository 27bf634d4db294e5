//! The stochastic cell engine: each tick, every cell undergoes four
//! independent Bernoulli trials in a fixed order — symbol re-roll, glow,
//! dim, decay.  Streaks are painted afterwards, so their colour wins on
//! the cells they cover.  The draws themselves come from a generator;
//! everything downstream of the drawn values is exact.
use vstd::prelude::*;

use crate::color::{green_of, spec_decayed, spec_green, spec_red, spec_blue, spec_with_green, decayed, with_green};
use crate::config::Config;
use crate::entropy;
use crate::rune::Rune;

verus! {

/// The outcome of one cell's random draws for one tick.
#[derive(Clone, Copy, Debug)]
pub struct Draws {
    /// Whether the symbol re-roll trial fired.
    pub symbol_change: bool,
    /// The replacement symbol, used only when the re-roll fired on a
    /// non-black cell.
    pub symbol_index: usize,
    /// Whether the glow trial fired.
    pub glow: bool,
    /// Whether the dim trial fired.
    pub dim: bool,
    /// Whether the decay trial fired.
    pub decay: bool,
}

/// The drawn symbol points into a table of `nsym` glyphs.
pub open spec fn draws_wf(d: Draws, nsym: int) -> bool {
    d.symbol_index < nsym
}

/// A draw honors the configured probabilities at their extremes: a
/// trial with probability zero never fires, one with probability one
/// always fires.
pub open spec fn draws_honor(d: Draws, cfg: Config) -> bool {
    &&& cfg.prob_symbol_change.is_never() ==> !d.symbol_change
    &&& cfg.prob_symbol_change.is_always() ==> d.symbol_change
    &&& cfg.prob_glow.is_never() ==> !d.glow
    &&& cfg.prob_glow.is_always() ==> d.glow
    &&& cfg.prob_dim.is_never() ==> !d.dim
    &&& cfg.prob_dim.is_always() ==> d.dim
    &&& cfg.prob_decay.is_never() ==> !d.decay
    &&& cfg.prob_decay.is_always() ==> d.decay
}

/// One tick of ambient aging on one cell, given the cell's draws.  The
/// four effects apply in order: a non-black cell may have its symbol
/// re-rolled; glow sets the green channel; dim sets it after glow, so dim
/// wins when both fire; decay then scales a lit green channel down.
pub open spec fn spec_ambient(rn: Rune, d: Draws, cfg: Config) -> Rune {
    let r1 = if rn.color != 0 && d.symbol_change {
        Rune { symbol_index: d.symbol_index, ..rn }
    } else {
        rn
    };
    let r2 = if d.glow {
        Rune { color: spec_with_green(r1.color, cfg.glow_value as u32), ..r1 }
    } else {
        r1
    };
    let r3 = if d.dim {
        Rune { color: spec_with_green(r2.color, cfg.dim_value as u32), ..r2 }
    } else {
        r2
    };
    if spec_green(r3.color) > 0 && d.decay {
        Rune {
            color: spec_with_green(
                r3.color,
                spec_decayed(spec_green(r3.color), cfg.decay_num, cfg.decay_den) as u32,
            ),
            ..r3
        }
    } else {
        r3
    }
}

/// A cell whose draws all miss is left exactly as it was.
pub proof fn lemma_ambient_identity(rn: Rune, d: Draws, cfg: Config)
    requires
        !d.symbol_change,
        !d.glow,
        !d.dim,
        !d.decay,
    ensures
        spec_ambient(rn, d, cfg) == rn,
{
}

/// Ambient aging touches only the green channel and the symbol: red and
/// blue pass through, and the green channel can grow only through a glow
/// or dim event; without one it only decays or stays.
pub proof fn lemma_ambient_green_monotone(rn: Rune, d: Draws, cfg: Config)
    requires
        cfg.wf(),
    ensures
        spec_red(spec_ambient(rn, d, cfg).color) == spec_red(rn.color),
        spec_blue(spec_ambient(rn, d, cfg).color) == spec_blue(rn.color),
        !d.glow && !d.dim ==> spec_green(spec_ambient(rn, d, cfg).color) <= spec_green(rn.color),
        spec_green(spec_ambient(rn, d, cfg).color) > spec_green(rn.color) ==> d.glow || d.dim,
        d.glow || d.dim ==> spec_green(spec_ambient(rn, d, cfg).color) <= vstd::math::max(
            cfg.glow_value as int,
            cfg.dim_value as int,
        ),
        spec_green(spec_ambient(rn, d, cfg).color) > spec_green(rn.color) ==> spec_green(
            spec_ambient(rn, d, cfg).color,
        ) == cfg.glow_value || spec_green(spec_ambient(rn, d, cfg).color) == cfg.dim_value
            || spec_green(spec_ambient(rn, d, cfg).color) == spec_decayed(
            cfg.glow_value as u32,
            cfg.decay_num,
            cfg.decay_den,
        ) || spec_green(spec_ambient(rn, d, cfg).color) == spec_decayed(
            cfg.dim_value as u32,
            cfg.decay_num,
            cfg.decay_den,
        ),
{
    let r1 = if rn.color != 0 && d.symbol_change {
        Rune { symbol_index: d.symbol_index, ..rn }
    } else {
        rn
    };
    let r2 = if d.glow {
        Rune { color: spec_with_green(r1.color, cfg.glow_value as u32), ..r1 }
    } else {
        r1
    };
    let r3 = if d.dim {
        Rune { color: spec_with_green(r2.color, cfg.dim_value as u32), ..r2 }
    } else {
        r2
    };
    if d.glow {
        crate::color::lemma_with_green(r1.color, cfg.glow_value as u32);
    }
    if d.dim {
        crate::color::lemma_with_green(r2.color, cfg.dim_value as u32);
    }
    if spec_green(r3.color) > 0 && d.decay {
        crate::color::lemma_channels_bounded(r3.color);
        crate::color::lemma_decayed_le(spec_green(r3.color) as u32, cfg.decay_num, cfg.decay_den);
        crate::color::lemma_with_green(
            r3.color,
            spec_decayed(spec_green(r3.color), cfg.decay_num, cfg.decay_den) as u32,
        );
    }
}

/// One tick of ambient aging on one cell.
pub fn age_rune(rn: Rune, d: Draws, cfg: &Config) -> (r: Rune)
    requires
        cfg.wf(),
    ensures
        r == spec_ambient(rn, d, *cfg),
{
    let mut out = rn;
    if out.color != 0 && d.symbol_change {
        out.symbol_index = d.symbol_index;
    }
    if d.glow {
        out.color = with_green(out.color, cfg.glow_value as u32);
    }
    if d.dim {
        out.color = with_green(out.color, cfg.dim_value as u32);
    }
    let g: u32 = green_of(out.color);
    if g > 0 && d.decay {
        proof {
            crate::color::lemma_channels_bounded(out.color);
        }
        let gd: u32 = decayed(g, cfg.decay_num, cfg.decay_den);
        out.color = with_green(out.color, gd);
    }
    out
}

/// Draw one cell's trial outcomes and replacement symbol.  A trial with
/// probability zero never fires; one with probability one always fires.
pub fn draw_draws(rng: &mut rand::rngs::SmallRng, cfg: &Config, nsym: u32) -> (d: Draws)
    requires
        cfg.wf(),
        1 <= nsym,
    ensures
        draws_wf(d, nsym as int),
        cfg.prob_symbol_change.is_never() ==> !d.symbol_change,
        cfg.prob_symbol_change.is_always() ==> d.symbol_change,
        cfg.prob_glow.is_never() ==> !d.glow,
        cfg.prob_glow.is_always() ==> d.glow,
        cfg.prob_dim.is_never() ==> !d.dim,
        cfg.prob_dim.is_always() ==> d.dim,
        cfg.prob_decay.is_never() ==> !d.decay,
        cfg.prob_decay.is_always() ==> d.decay,
{
    let symbol_change: bool = entropy::rng_below(rng, cfg.prob_symbol_change.den)
        < cfg.prob_symbol_change.num;
    let symbol_index: usize = entropy::rng_below(rng, nsym) as usize;
    let glow: bool = entropy::rng_below(rng, cfg.prob_glow.den) < cfg.prob_glow.num;
    let dim: bool = entropy::rng_below(rng, cfg.prob_dim.den) < cfg.prob_dim.num;
    let decay: bool = entropy::rng_below(rng, cfg.prob_decay.den) < cfg.prob_decay.num;
    Draws { symbol_change, symbol_index, glow, dim, decay }
}

} // verus!
