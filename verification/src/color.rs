//! Packed 24-bit colours.
//!
//! A cell colour is a `u32` holding `0x00RRGGBB`.  The ambient aging engine
//! works on the green channel only; the falling streaks overwrite the whole
//! value.
use vstd::prelude::*;

verus! {

/// The red channel of a packed colour.
pub open spec fn spec_red(c: u32) -> u32 {
    (c >> 16) & 0xff
}

/// The green channel of a packed colour.
pub open spec fn spec_green(c: u32) -> u32 {
    (c >> 8) & 0xff
}

/// The blue channel of a packed colour.
pub open spec fn spec_blue(c: u32) -> u32 {
    c & 0xff
}

/// `c` with its green channel replaced by `g`, red and blue kept.
pub open spec fn spec_with_green(c: u32, g: u32) -> u32 {
    (c & 0xffff00ff) | ((g & 0xff) << 8)
}

pub proof fn lemma_channels_bounded(c: u32)
    by (bit_vector)
    ensures
        spec_red(c) < 256,
        spec_green(c) < 256,
        spec_blue(c) < 256,
{
}

pub proof fn lemma_with_green(c: u32, g: u32)
    by (bit_vector)
    requires
        g < 256,
    ensures
        spec_green(spec_with_green(c, g)) == g,
        spec_red(spec_with_green(c, g)) == spec_red(c),
        spec_blue(spec_with_green(c, g)) == spec_blue(c),
        c == spec_with_green(c, g) ==> spec_green(c) == g,
{
}

pub fn green_of(c: u32) -> (g: u32)
    ensures
        g == spec_green(c),
{
    (c >> 8) & 0xff
}

pub fn with_green(c: u32, g: u32) -> (r: u32)
    requires
        g < 256,
    ensures
        r == spec_with_green(c, g),
{
    (c & 0xffff00ff) | ((g & 0xff) << 8)
}

/// The green channel after one decay step: the old value scaled by
/// `num / den`, rounded toward zero.
pub open spec fn spec_decayed(g: u32, num: u32, den: u32) -> int
    recommends
        0 < den,
{
    (g * num) / (den as int)
}

pub proof fn lemma_decayed_le(g: u32, num: u32, den: u32)
    by (nonlinear_arith)
    requires
        0 < den,
        num <= den,
    ensures
        0 <= spec_decayed(g, num, den) <= g,
{
}

/// One decay step on the green channel of `g`.
pub fn decayed(g: u32, num: u32, den: u32) -> (r: u32)
    requires
        0 < den,
        num <= den,
        g < 256,
    ensures
        r == spec_decayed(g, num, den),
        r <= g,
{
    proof {
        lemma_decayed_le(g, num, den);
        assert((g as u64) * (num as u64) < 0x100_0000_0000u64) by (nonlinear_arith)
            requires
                g < 256,
                num < 0x1_0000_0000u64,
        ;
    }
    let wide: u64 = (g as u64) * (num as u64) / (den as u64);
    wide as u32
}

} // verus!
