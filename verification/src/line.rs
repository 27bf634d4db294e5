//! A falling streak: an independent vertical run of lit cells with its own
//! speed, advancing down one column and leaving a trailing gap.
use vstd::prelude::*;

use crate::config::Config;
use crate::rune::Rune;

verus! {

/// Total streak length never exceeds the sum of two `u16` maxima: the
/// visible part and the trailing gap are both sampled from `u16` ranges.
pub open spec fn max_line_len() -> int {
    0x1fffe
}

/// One falling streak.  `head_row` is a counter that only grows and may
/// exceed the grid height; `length` counts the visible part plus the
/// trailing gap.
#[derive(Clone, Copy, PartialEq, Eq, Structural, Debug)]
pub struct Line {
    /// The column the streak falls down.
    pub column: u16,
    /// The row just past the streak's lowest painted cell.
    pub head_row: u32,
    /// Total streak length, trailing gap included.
    pub length: u32,
    /// Ticks between one-row advances.
    pub fall_interval: u16,
    /// Ticks since the last one-row advance.
    pub ticks_since_move: u16,
}

impl Line {
    pub open spec fn wf(self) -> bool {
        &&& 1 <= self.fall_interval
        &&& self.ticks_since_move < self.fall_interval
        &&& 1 <= self.length <= max_line_len()
    }
}

/// One tick of a streak: the tick counter advances, and each time it
/// reaches the fall interval the head moves down one row.
pub open spec fn spec_advance(l: Line) -> Line {
    if l.ticks_since_move + 1 >= l.fall_interval {
        Line { head_row: (l.head_row + 1) as u32, ticks_since_move: 0, ..l }
    } else {
        Line { ticks_since_move: (l.ticks_since_move + 1) as u16, ..l }
    }
}

/// A streak is expired once its tail has fully left the bottom edge.
pub open spec fn spec_expired(l: Line, height: u16) -> bool {
    (if l.head_row >= l.length {
        l.head_row - l.length
    } else {
        0
    }) >= height
}

/// The head of a streak never moves back up, and moves down by at most one
/// row per tick.
pub proof fn lemma_head_monotone(l: Line)
    requires
        l.head_row < u32::MAX,
    ensures
        l.head_row <= spec_advance(l).head_row <= l.head_row + 1,
        spec_advance(l).column == l.column,
        spec_advance(l).length == l.length,
        spec_advance(l).fall_interval == l.fall_interval,
{
}

/// A streak whose head counter grows retains well-formedness, and advances
/// exactly every `fall_interval` ticks.
pub proof fn lemma_advance_wf(l: Line)
    requires
        l.wf(),
        l.head_row < u32::MAX,
    ensures
        spec_advance(l).wf(),
        spec_advance(l).head_row == l.head_row + 1 <==> l.ticks_since_move + 1 == l.fall_interval,
{
}

/// One tick of a streak.
pub fn advance(l: &Line) -> (r: Line)
    requires
        l.wf(),
        l.head_row < u32::MAX,
    ensures
        r == spec_advance(*l),
{
    if l.ticks_since_move + 1 >= l.fall_interval {
        Line { head_row: l.head_row + 1, ticks_since_move: 0, ..*l }
    } else {
        Line { ticks_since_move: l.ticks_since_move + 1, ..*l }
    }
}

/// The streak occupies `row` of its column: the contiguous range from
/// its tail (`head_row - length`) up to, not including, its head counter.
pub open spec fn spec_line_covers(l: Line, row: int) -> bool {
    l.head_row - l.length <= row < l.head_row
}

/// Position of `row` within the streak, 0 at the tail.
pub open spec fn spec_drop_index(l: Line, row: int) -> int {
    l.length - l.head_row + row
}

/// Green brightness of a ramp cell: a rise from `dim_value` towards
/// white, quantized into `drop_segments` discrete steps.
pub open spec fn spec_ramp_green(idx: int, visible: int, cfg: Config) -> int
    recommends
        0 <= idx,
        idx + 1 < visible,
        1 <= cfg.drop_segments,
{
    cfg.dim_value + ((0xff - cfg.dim_value) * ((idx * cfg.drop_segments) / visible))
        / (cfg.drop_segments as int)
}

pub proof fn lemma_ramp_green_bounds(idx: int, visible: int, cfg: Config)
    by (nonlinear_arith)
    requires
        0 <= idx,
        idx + 1 < visible,
        1 <= cfg.drop_segments,
    ensures
        cfg.dim_value <= spec_ramp_green(idx, visible, cfg) <= 0xff,
{
}

/// The colour a streak paints at `row`, by position from tail to head:
/// the quantized ramp below the last two visible positions, pure green
/// just behind the head, pure white at the head, black through the
/// trailing gap.  A streak whose visible part is empty paints nothing.
pub open spec fn spec_line_color(l: Line, row: int, cfg: Config) -> Option<u32> {
    let idx = spec_drop_index(l, row);
    let visible = l.length - cfg.drop_space_len;
    if visible <= 0 {
        Option::None
    } else if idx + 1 < visible {
        Option::Some((spec_ramp_green(idx, visible, cfg) * 256) as u32)
    } else if idx + 1 == visible {
        Option::Some(0x00ff00u32)
    } else if idx == visible {
        Option::Some(0xffffffu32)
    } else {
        Option::Some(0u32)
    }
}

/// The colour a streak paints at `row`.
pub fn line_color(l: &Line, row: u32, cfg: &Config) -> (r: Option<u32>)
    requires
        cfg.wf(),
        l.wf(),
        spec_line_covers(*l, row as int),
    ensures
        r == spec_line_color(*l, row as int, *cfg),
{
    let len64: u64 = l.length as u64;
    let idx: u64 = row as u64 + len64 - l.head_row as u64;
    let gap: u64 = cfg.drop_space_len as u64;
    if len64 <= gap {
        return None;
    }
    let visible: u64 = len64 - gap;
    if idx + 1 < visible {
        let seg: u64 = cfg.drop_segments as u64;
        let dim: u64 = cfg.dim_value as u64;
        proof {
            assert(idx < 0x20000);
            assert(idx * seg <= 0x20000 * 0x100000000) by (nonlinear_arith)
                requires
                    idx < 0x20000,
                    seg <= 0x100000000,
            ;
        }
        let k: u64 = (idx * seg) / visible;
        proof {
            lemma_ramp_green_bounds(idx as int, visible as int, *cfg);
            assert(k * 0xff <= 0x20000 * 0x100000000 * 0xff) by (nonlinear_arith)
                requires
                    k <= 0x20000 * 0x100000000,
            ;
            assert((0xff - dim) * k <= 0xff * k) by (nonlinear_arith)
                requires
                    dim <= 0xff,
                    0 <= k,
            ;
        }
        let g: u64 = dim + ((0xff - dim) * k) / seg;
        Some((g as u32) * 256)
    } else if idx + 1 == visible {
        Some(0x00ff00)
    } else if idx == visible {
        Some(0xffffff)
    } else {
        Some(0)
    }
}

/// The cell `rn` after streak `l` passes over it at `row`: only the
/// colour is replaced; the symbol underneath is left untouched.
pub open spec fn spec_paint_cell(rn: Rune, l: Line, row: int, cfg: Config) -> Rune {
    match spec_line_color(l, row, cfg) {
        Option::Some(col) => Rune { color: col, ..rn },
        Option::None => rn,
    }
}

/// The grid after streak `l` is painted: every covered row of the
/// streak's column is recoloured, everything else is untouched.
pub open spec fn spec_paint_line(g: Seq<Seq<Rune>>, l: Line, cfg: Config) -> Seq<Seq<Rune>> {
    Seq::new(
        g.len(),
        |r: int|
            Seq::new(
                g[r].len(),
                |c: int|
                    if c == l.column && spec_line_covers(l, r) {
                        spec_paint_cell(g[r][c], l, r, cfg)
                    } else {
                        g[r][c]
                    },
            ),
    )
}

/// The grid after a list of streaks is painted in order: a streak
/// painted later wins on any cell two streaks share.
pub open spec fn spec_paint_all(g: Seq<Seq<Rune>>, lines: Seq<Line>, cfg: Config) -> Seq<Seq<Rune>>
    decreases lines.len(),
{
    if lines.len() == 0 {
        g
    } else {
        spec_paint_line(spec_paint_all(g, lines.drop_last(), cfg), lines.last(), cfg)
    }
}

/// Painting never changes the grid's shape or any cell's symbol.
pub proof fn lemma_paint_line_shape(g: Seq<Seq<Rune>>, l: Line, cfg: Config)
    ensures
        spec_paint_line(g, l, cfg).len() == g.len(),
        forall|r: int|
            0 <= r < g.len() ==> (#[trigger] spec_paint_line(g, l, cfg)[r]).len() == g[r].len(),
        forall|r: int, c: int|
            0 <= r < g.len() && 0 <= c < g[r].len() ==> (#[trigger] spec_paint_line(
                g,
                l,
                cfg,
            )[r][c]).symbol_index == g[r][c].symbol_index,
{
}

/// Painting a list of streaks never changes the grid's shape or any
/// cell's symbol.
pub proof fn lemma_paint_all_shape(g: Seq<Seq<Rune>>, lines: Seq<Line>, cfg: Config)
    ensures
        spec_paint_all(g, lines, cfg).len() == g.len(),
        forall|r: int|
            0 <= r < g.len() ==> (#[trigger] spec_paint_all(g, lines, cfg)[r]).len() == g[r].len(),
        forall|r: int, c: int|
            0 <= r < g.len() && 0 <= c < g[r].len() ==> (#[trigger] spec_paint_all(
                g,
                lines,
                cfg,
            )[r][c]).symbol_index == g[r][c].symbol_index,
    decreases lines.len(),
{
    if lines.len() > 0 {
        lemma_paint_all_shape(g, lines.drop_last(), cfg);
        lemma_paint_line_shape(spec_paint_all(g, lines.drop_last(), cfg), lines.last(), cfg);
    }
}

/// An empty streak list paints nothing, and appending a streak paints it
/// over the result of the rest.
pub proof fn lemma_paint_all_push(g: Seq<Seq<Rune>>, lines: Seq<Line>, l: Line, cfg: Config)
    ensures
        spec_paint_all(g, lines.push(l), cfg) == spec_paint_line(
            spec_paint_all(g, lines, cfg),
            l,
            cfg,
        ),
{
    assert(lines.push(l).drop_last() =~= lines);
    assert(lines.push(l).last() == l);
}

/// Filtering distributes over push: used to build a pruned list element
/// by element.
pub proof fn lemma_filter_push<A>(s: Seq<A>, pred: spec_fn(A) -> bool, x: A)
    ensures
        s.push(x).filter(pred) == if pred(x) {
            s.filter(pred).push(x)
        } else {
            s.filter(pred)
        },
{
    reveal(Seq::filter);
    assert(s.push(x).drop_last() =~= s);
}

/// Whether the streak's tail has fully left a grid of the given height.
pub fn expired(l: &Line, height: u16) -> (r: bool)
    ensures
        r == spec_expired(*l, height),
{
    let below: u32 = if l.head_row >= l.length {
        l.head_row - l.length
    } else {
        0
    };
    below >= height as u32
}

} // verus!
