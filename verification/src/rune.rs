//! One grid cell: a symbol drawn from a fixed table plus a packed colour.
use vstd::prelude::*;

use crate::color::{spec_blue, spec_green, spec_red};

verus! {

/// One cell of the grid.  `symbol_index` points into the rain's symbol
/// table; `color` packs the cell's 24-bit foreground colour as `0x00RRGGBB`.
/// Two cells are equal exactly when both fields match.
#[derive(Clone, Copy, PartialEq, Eq, Structural, Debug)]
pub struct Rune {
    pub symbol_index: usize,
    pub color: u32,
}

impl Rune {
    /// The red channel of the cell's colour.
    pub fn r(&self) -> (v: u8)
        ensures
            v == spec_red(self.color),
    {
        proof {
            crate::color::lemma_channels_bounded(self.color);
        }
        ((self.color >> 16) & 0xff) as u8
    }

    /// The green channel of the cell's colour.
    pub fn g(&self) -> (v: u8)
        ensures
            v == spec_green(self.color),
    {
        proof {
            crate::color::lemma_channels_bounded(self.color);
        }
        ((self.color >> 8) & 0xff) as u8
    }

    /// The blue channel of the cell's colour.
    pub fn b(&self) -> (v: u8)
        ensures
            v == spec_blue(self.color),
    {
        proof {
            crate::color::lemma_channels_bounded(self.color);
        }
        (self.color & 0xff) as u8
    }
}

impl Default for Rune {
    /// The blank cell: symbol 0 (the blank glyph) on black.
    fn default() -> (r: Self)
        ensures
            r.symbol_index == 0,
            r.color == 0,
    {
        Rune { symbol_index: 0, color: 0 }
    }
}

} // verus!
