//! The frame differ: what byte stream (as a sequence of characters) two
//! frames turn into.  A cell is written when it is dirty — different from
//! the previously written frame, or any cell during a full redraw — and a
//! run of adjacent dirty cells gets a single cursor move.
use vstd::prelude::*;

use crate::color::{spec_blue, spec_green, spec_red};
use crate::rune::Rune;

verus! {

/// The decimal digit `d` as a character, for `0 <= d <= 9`.
pub open spec fn spec_digit(d: int) -> char {
    if d == 0 {
        '0'
    } else if d == 1 {
        '1'
    } else if d == 2 {
        '2'
    } else if d == 3 {
        '3'
    } else if d == 4 {
        '4'
    } else if d == 5 {
        '5'
    } else if d == 6 {
        '6'
    } else if d == 7 {
        '7'
    } else if d == 8 {
        '8'
    } else {
        '9'
    }
}

/// `n` written in decimal, most significant digit first, no leading
/// zeroes (a single `'0'` for zero).
pub open spec fn spec_dec(n: nat) -> Seq<char>
    decreases n,
{
    if n < 10 {
        seq![spec_digit(n as int)]
    } else {
        spec_dec(n / 10).push(spec_digit((n % 10) as int))
    }
}

/// Append the decimal rendering of `n` to `out`.
pub fn push_dec(out: &mut Vec<char>, n: u32)
    ensures
        final(out)@ == old(out)@ + spec_dec(n as nat),
    decreases n,
{
    if n >= 10 {
        push_dec(out, n / 10);
    }
    let d: u32 = n % 10;
    let c: char = if d == 0 {
        '0'
    } else if d == 1 {
        '1'
    } else if d == 2 {
        '2'
    } else if d == 3 {
        '3'
    } else if d == 4 {
        '4'
    } else if d == 5 {
        '5'
    } else if d == 6 {
        '6'
    } else if d == 7 {
        '7'
    } else if d == 8 {
        '8'
    } else {
        '9'
    };
    out.push(c);
    proof {
        assert(final(out)@ =~= old(out)@ + spec_dec(n as nat));
    }
}

/// The terminal column of logical column `c`: identical in narrow mode,
/// doubled when glyphs span two terminal cells.
pub open spec fn spec_tcol(c: int, half_width: bool) -> int {
    if half_width {
        c
    } else {
        2 * c
    }
}

/// The escape sequence moving the cursor to 0-based logical row `y`,
/// terminal column `tcol`; the terminal's coordinates are 1-based.
pub open spec fn spec_move_to(y: int, tcol: int) -> Seq<char>
    recommends
        0 <= y,
        0 <= tcol,
{
    seq!['\x1b', '['] + spec_dec((y + 1) as nat) + seq![';'] + spec_dec((tcol + 1) as nat)
        + seq!['H']
}

/// The styled write of one cell: a 24-bit foreground colour escape
/// followed by the cell's glyph, padded with a space in narrow mode.
pub open spec fn spec_rune_text(rn: Rune, symbols: Seq<char>, half_width: bool) -> Seq<char>
    recommends
        rn.symbol_index < symbols.len(),
{
    seq!['\x1b', '[', '3', '8', ';', '2', ';'] + spec_dec(spec_red(rn.color) as nat) + seq![';']
        + spec_dec(spec_green(rn.color) as nat) + seq![';'] + spec_dec(spec_blue(rn.color) as nat)
        + seq!['m', symbols[rn.symbol_index as int]] + (if half_width {
        seq![' ']
    } else {
        Seq::<char>::empty()
    })
}

/// Append the cursor move to logical row `y`, terminal column `tcol`.
pub fn push_move_to(out: &mut Vec<char>, y: u16, tcol: u32)
    requires
        tcol < u32::MAX,
    ensures
        final(out)@ == old(out)@ + spec_move_to(y as int, tcol as int),
{
    out.push('\x1b');
    out.push('[');
    push_dec(out, y as u32 + 1);
    out.push(';');
    push_dec(out, tcol + 1);
    out.push('H');
    proof {
        assert(final(out)@ =~= old(out)@ + spec_move_to(y as int, tcol as int));
    }
}

/// Append the styled write of one cell.
pub fn push_rune_text(out: &mut Vec<char>, rn: Rune, symbols: &Vec<char>, half_width: bool)
    requires
        rn.symbol_index < symbols@.len(),
    ensures
        final(out)@ == old(out)@ + spec_rune_text(rn, symbols@, half_width),
{
    out.push('\x1b');
    out.push('[');
    out.push('3');
    out.push('8');
    out.push(';');
    out.push('2');
    out.push(';');
    push_dec(out, rn.r() as u32);
    out.push(';');
    push_dec(out, rn.g() as u32);
    out.push(';');
    push_dec(out, rn.b() as u32);
    out.push('m');
    out.push(symbols[rn.symbol_index]);
    if half_width {
        out.push(' ');
    }
    proof {
        assert(final(out)@ =~= old(out)@ + spec_rune_text(rn, symbols@, half_width));
    }
}

/// The output for the first `c` cells of row `y`, and whether cell
/// `c - 1` was written (so that the next dirty cell may skip its cursor
/// move).  A cell is dirty when `refresh` is set or it differs between
/// the two frames.
pub open spec fn spec_row_diff(
    prevr: Seq<Rune>,
    nextr: Seq<Rune>,
    y: int,
    refresh: bool,
    symbols: Seq<char>,
    half_width: bool,
    c: int,
) -> (Seq<char>, bool)
    decreases c,
{
    if c <= 0 {
        (Seq::<char>::empty(), false)
    } else {
        let (s, wrote) = spec_row_diff(prevr, nextr, y, refresh, symbols, half_width, c - 1);
        if refresh || prevr[c - 1] != nextr[c - 1] {
            (
                s + (if wrote {
                    Seq::<char>::empty()
                } else {
                    spec_move_to(y, spec_tcol(c - 1, half_width))
                }) + spec_rune_text(nextr[c - 1], symbols, half_width),
                true,
            )
        } else {
            (s, false)
        }
    }
}

/// The output for the first `y` rows of the frame diff.
pub open spec fn spec_frame_diff(
    prev: Seq<Seq<Rune>>,
    next: Seq<Seq<Rune>>,
    refresh: bool,
    symbols: Seq<char>,
    half_width: bool,
    y: int,
) -> Seq<char>
    decreases y,
{
    if y <= 0 {
        Seq::<char>::empty()
    } else {
        spec_frame_diff(prev, next, refresh, symbols, half_width, y - 1) + spec_row_diff(
            prev[y - 1],
            next[y - 1],
            y - 1,
            refresh,
            symbols,
            half_width,
            next[y - 1].len() as int,
        ).0
    }
}

/// The whole byte stream of one render pass.
pub open spec fn spec_render(
    prev: Seq<Seq<Rune>>,
    next: Seq<Seq<Rune>>,
    refresh: bool,
    symbols: Seq<char>,
    half_width: bool,
) -> Seq<char> {
    spec_frame_diff(prev, next, refresh, symbols, half_width, next.len() as int)
}

/// Diffing a frame against itself without a redraw flag emits nothing:
/// no cell is dirty, so no escape sequence is produced.
pub proof fn lemma_row_diff_self(
    row: Seq<Rune>,
    y: int,
    symbols: Seq<char>,
    half_width: bool,
    c: int,
)
    ensures
        spec_row_diff(row, row, y, false, symbols, half_width, c) == (
        Seq::<char>::empty(),
        false,
    ),
    decreases c,
{
    if c > 0 {
        lemma_row_diff_self(row, y, symbols, half_width, c - 1);
    }
}

/// Diffing any frame against itself yields zero emitted writes.
pub proof fn lemma_render_self(grid: Seq<Seq<Rune>>, symbols: Seq<char>, half_width: bool)
    ensures
        spec_render(grid, grid, false, symbols, half_width) == Seq::<char>::empty(),
{
    lemma_frame_diff_self(grid, symbols, half_width, grid.len() as int);
}

proof fn lemma_frame_diff_self(grid: Seq<Seq<Rune>>, symbols: Seq<char>, half_width: bool, y: int)
    ensures
        spec_frame_diff(grid, grid, false, symbols, half_width, y) == Seq::<char>::empty(),
    decreases y,
{
    if y > 0 {
        lemma_frame_diff_self(grid, symbols, half_width, y - 1);
        lemma_row_diff_self(grid[y - 1], y - 1, symbols, half_width, grid[y - 1].len() as int);
        assert(spec_frame_diff(grid, grid, false, symbols, half_width, y) =~= Seq::<
            char,
        >::empty());
    }
}

/// Everything a full redraw writes for row `y`: one cursor move to the
/// row's first column, then every cell of the row in order.
pub open spec fn spec_row_texts(
    nextr: Seq<Rune>,
    symbols: Seq<char>,
    half_width: bool,
    c: int,
) -> Seq<char>
    decreases c,
{
    if c <= 0 {
        Seq::<char>::empty()
    } else {
        spec_row_texts(nextr, symbols, half_width, c - 1) + spec_rune_text(
            nextr[c - 1],
            symbols,
            half_width,
        )
    }
}

/// Everything a full redraw writes for the first `y` rows: for each row
/// one cursor move to its first column, then every cell of the row.
pub open spec fn spec_full_frame(
    next: Seq<Seq<Rune>>,
    symbols: Seq<char>,
    half_width: bool,
    y: int,
) -> Seq<char>
    decreases y,
{
    if y <= 0 {
        Seq::<char>::empty()
    } else {
        spec_full_frame(next, symbols, half_width, y - 1) + spec_move_to(
            y - 1,
            spec_tcol(0, half_width),
        ) + spec_row_texts(next[y - 1], symbols, half_width, next[y - 1].len() as int)
    }
}

/// Under a full redraw the whole frame is written: every row emits one
/// cursor move followed by every one of its cells, whatever the previous
/// frame held.
pub proof fn lemma_render_refresh(
    prev: Seq<Seq<Rune>>,
    next: Seq<Seq<Rune>>,
    symbols: Seq<char>,
    half_width: bool,
)
    requires
        forall|r: int| 0 <= r < next.len() ==> (#[trigger] next[r]).len() > 0,
    ensures
        spec_render(prev, next, true, symbols, half_width) == spec_full_frame(
            next,
            symbols,
            half_width,
            next.len() as int,
        ),
{
    lemma_frame_diff_refresh(prev, next, symbols, half_width, next.len() as int);
}

proof fn lemma_frame_diff_refresh(
    prev: Seq<Seq<Rune>>,
    next: Seq<Seq<Rune>>,
    symbols: Seq<char>,
    half_width: bool,
    y: int,
)
    requires
        y <= next.len(),
        forall|r: int| 0 <= r < next.len() ==> (#[trigger] next[r]).len() > 0,
    ensures
        spec_frame_diff(prev, next, true, symbols, half_width, y) == spec_full_frame(
            next,
            symbols,
            half_width,
            y,
        ),
    decreases y,
{
    if y > 0 {
        lemma_frame_diff_refresh(prev, next, symbols, half_width, y - 1);
        lemma_row_diff_refresh(
            prev[y - 1],
            next[y - 1],
            y - 1,
            symbols,
            half_width,
            next[y - 1].len() as int,
        );
        assert(spec_frame_diff(prev, next, true, symbols, half_width, y) =~= spec_full_frame(
            next,
            symbols,
            half_width,
            y,
        ));
    }
}

/// Under a full redraw every cell is dirty: each non-empty row emits
/// exactly one cursor move followed by all of its cells.
pub proof fn lemma_row_diff_refresh(
    prevr: Seq<Rune>,
    nextr: Seq<Rune>,
    y: int,
    symbols: Seq<char>,
    half_width: bool,
    c: int,
)
    requires
        c > 0,
    ensures
        spec_row_diff(prevr, nextr, y, true, symbols, half_width, c).0 == spec_move_to(
            y,
            spec_tcol(0, half_width),
        ) + spec_row_texts(nextr, symbols, half_width, c),
        spec_row_diff(prevr, nextr, y, true, symbols, half_width, c).1,
    decreases c,
{
    if c == 1 {
        reveal_with_fuel(spec_row_diff, 2);
        reveal_with_fuel(spec_row_texts, 2);
        assert(spec_row_diff(prevr, nextr, y, true, symbols, half_width, 1).0 =~= spec_move_to(
            y,
            spec_tcol(0, half_width),
        ) + spec_row_texts(nextr, symbols, half_width, 1));
    } else {
        lemma_row_diff_refresh(prevr, nextr, y, symbols, half_width, c - 1);
        assert(spec_row_diff(prevr, nextr, y, true, symbols, half_width, c).0 =~= spec_move_to(
            y,
            spec_tcol(0, half_width),
        ) + spec_row_texts(nextr, symbols, half_width, c));
    }
}

} // verus!
