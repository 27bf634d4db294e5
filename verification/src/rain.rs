//! The simulation surface and its engines: the grid of cells, the ambient
//! stochastic aging, the falling streak population, and the render pass
//! that diffs the grid against what the terminal last showed.
use vstd::prelude::*;

use crate::ambient::{draws_honor, draws_wf, spec_ambient, Draws};
use crate::config::Config;
use crate::entropy;
use crate::line::{
    advance, expired, lemma_filter_push, lemma_paint_all_push, lemma_paint_line_shape, line_color,
    spec_advance, spec_expired, spec_line_covers, spec_paint_all, spec_paint_cell, spec_paint_line,
    Line,
};
use crate::rune::Rune;

verus! {

/// Every probability steering ambient aging is zero.
pub open spec fn ambient_never(cfg: Config) -> bool {
    &&& cfg.prob_symbol_change.is_never()
    &&& cfg.prob_glow.is_never()
    &&& cfg.prob_dim.is_never()
    &&& cfg.prob_decay.is_never()
}

/// `after` is `before` aged by one round of trials under some valid draw
/// outcome that honors the configured probabilities at their extremes.
pub open spec fn cell_aged(before: Rune, after: Rune, cfg: Config, nsym: int) -> bool {
    exists|d: Draws|
        draws_wf(d, nsym) && draws_honor(d, cfg) && after == spec_ambient(before, d, cfg)
}

/// `after` is `before` with one round of ambient aging applied: same
/// shape, and every cell is the image of the old cell under some valid
/// draw outcome.
pub open spec fn ambient_rel(
    before: Seq<Seq<Rune>>,
    after: Seq<Seq<Rune>>,
    cfg: Config,
    nsym: int,
) -> bool {
    &&& after.len() == before.len()
    &&& forall|r: int| 0 <= r < before.len() ==> (#[trigger] after[r]).len() == before[r].len()
    &&& forall|r: int, c: int|
        0 <= r < before.len() && 0 <= c < before[r].len() ==> #[trigger] cell_aged(
            before[r][c],
            after[r][c],
            cfg,
            nsym,
        )
}

/// What holds of a freshly spawned streak: it starts above the grid's
/// top row in some column, with its length and speed drawn from the
/// configured ranges (the trailing gap included in the length).
pub open spec fn spawn_ok(l: Line, cfg: Config, width: u16) -> bool {
    &&& l.column < width
    &&& l.head_row == 0
    &&& l.ticks_since_move == 0
    &&& cfg.min_drop_len + cfg.drop_space_len <= l.length <= cfg.max_drop_len
        + cfg.drop_space_len
    &&& cfg.min_drop_fall_int <= l.fall_interval <= cfg.max_drop_fall_int
}

/// One tick of the streak population: at most one streak is spawned —
/// never when the population is at capacity (one streak per grid row),
/// the grid has no columns, or the spawn probability is zero; always
/// when the spawn probability is one and there is room.  Then every
/// streak advances, and the expired ones are removed.
pub open spec fn lines_stepped(
    before: Seq<Line>,
    spawned: Seq<Line>,
    after: Seq<Line>,
    cfg: Config,
    width: u16,
    height: u16,
) -> bool {
    &&& spawned.len() <= 1
    &&& (before.len() >= height || width == 0 || cfg.prob_drop.is_never()) ==> spawned.len() == 0
    &&& (cfg.prob_drop.is_always() && before.len() < height && width > 0) ==> spawned.len() == 1
    &&& forall|j: int| 0 <= j < spawned.len() ==> spawn_ok(#[trigger] spawned[j], cfg, width)
    &&& after == (before + spawned).map_values(|l: Line| spec_advance(l)).filter(
        |l: Line| !spec_expired(l, height),
    )
}

/// `after` is `before` resized to `w` by `h`: cells both grids share are
/// kept; cells of the grown area are black, their symbol drawn from a
/// table of `nsym` glyphs.
pub open spec fn resized_ok(
    before: Seq<Seq<Rune>>,
    after: Seq<Seq<Rune>>,
    w: int,
    h: int,
    ow: int,
    oh: int,
    nsym: int,
) -> bool {
    &&& after.len() == h
    &&& forall|r: int| 0 <= r < h ==> (#[trigger] after[r]).len() == w
    &&& forall|r: int, c: int|
        0 <= r < h && 0 <= c < w ==> #[trigger] after[r][c] == (if r < oh && c < ow {
            before[r][c]
        } else {
            after[r][c]
        }) && (r >= oh || c >= ow ==> after[r][c].color == 0 && after[r][c].symbol_index < nsym)
}

/// Over one round of ambient aging, a cell's green channel never
/// increases unless a glow or dim event set it, and even then it never
/// exceeds the larger of the two configured brightness values; red and
/// blue pass through untouched.
pub proof fn lemma_ambient_rel_green(
    before: Seq<Seq<Rune>>,
    after: Seq<Seq<Rune>>,
    cfg: Config,
    nsym: int,
    r: int,
    c: int,
)
    requires
        cfg.wf(),
        ambient_rel(before, after, cfg, nsym),
        0 <= r < before.len(),
        0 <= c < before[r].len(),
    ensures
        crate::color::spec_red(after[r][c].color) == crate::color::spec_red(before[r][c].color),
        crate::color::spec_blue(after[r][c].color) == crate::color::spec_blue(before[r][c].color),
        crate::color::spec_green(after[r][c].color) <= crate::color::spec_green(
            before[r][c].color,
        ) || crate::color::spec_green(after[r][c].color) <= vstd::math::max(
            cfg.glow_value as int,
            cfg.dim_value as int,
        ),
{
    assert(cell_aged(before[r][c], after[r][c], cfg, nsym));
    let d = choose|d: Draws|
        draws_wf(d, nsym) && draws_honor(d, cfg) && after[r][c] == spec_ambient(
            before[r][c],
            d,
            cfg,
        );
    crate::ambient::lemma_ambient_green_monotone(before[r][c], d, cfg);
}

/// After one population step no expired streak remains: a streak is
/// removed within the tick its tail crosses the bottom edge.
pub proof fn lemma_no_expired_after_step(
    before: Seq<Line>,
    spawned: Seq<Line>,
    after: Seq<Line>,
    cfg: Config,
    width: u16,
    height: u16,
)
    requires
        lines_stepped(before, spawned, after, cfg, width, height),
    ensures
        forall|i: int| 0 <= i < after.len() ==> !spec_expired(#[trigger] after[i], height),
{
    let stepped = (before + spawned).map_values(|l: Line| spec_advance(l));
    let pred = |l: Line| !spec_expired(l, height);
    assert forall|i: int| 0 <= i < after.len() implies !spec_expired(
        #[trigger] after[i],
        height,
    ) by {
        stepped.lemma_filter_pred(pred, i);
    }
}

/// With spawning switched off the streak population never grows: ticks
/// only drain the streaks already in flight.
pub proof fn lemma_population_drains(
    before: Seq<Line>,
    spawned: Seq<Line>,
    after: Seq<Line>,
    cfg: Config,
    width: u16,
    height: u16,
)
    requires
        lines_stepped(before, spawned, after, cfg, width, height),
        cfg.prob_drop.is_never(),
    ensures
        after.len() <= before.len(),
{
    assert(before + spawned =~= before);
    let stepped = before.map_values(|l: Line| spec_advance(l));
    stepped.lemma_filter_len(|l: Line| !spec_expired(l, height));
}

/// The view of a grid as a sequence of rows of cells.
pub open spec fn grid_view(g: Seq<Vec<Rune>>) -> Seq<Seq<Rune>> {
    g.map_values(|row: Vec<Rune>| row@)
}

/// All rows of `g` have length `w` and there are `h` of them.
pub open spec fn grid_dims(g: Seq<Seq<Rune>>, w: int, h: int) -> bool {
    g.len() == h && (forall|r: int| 0 <= r < h ==> (#[trigger] g[r]).len() == w)
}

/// Every symbol index of `g` points into a table of `nsym` glyphs.
pub open spec fn grid_symbols_ok(g: Seq<Seq<Rune>>, nsym: int) -> bool {
    forall|r: int, c: int|
        0 <= r < g.len() && 0 <= c < g[r].len() ==> (#[trigger] g[r][c]).symbol_index < nsym
}

/// The authoritative simulation state.
pub struct Rain {
    /// Grid width in logical columns.
    pub width: u16,
    /// Grid height in rows.
    pub height: u16,
    /// The frame being computed: what the next render pass will show.
    pub runes: Vec<Vec<Rune>>,
    /// What the terminal currently shows.
    pub prev_frame: Vec<Vec<Rune>>,
    /// One generator per cell, so cells age independently.
    pub rune_rngs: Vec<Vec<rand::rngs::SmallRng>>,
    /// The falling streaks currently alive.
    pub lines: Vec<Line>,
    /// The generator used for spawning streaks and forking cell generators.
    pub rng: rand::rngs::SmallRng,
    /// The immutable parameter set.
    pub args: Config,
    /// The glyph table; index 0 is the blank glyph.
    pub symbols: Vec<char>,
    /// Set by a resize: the next render pass redraws every cell.
    pub needs_refresh: bool,
    /// While set, ticks and render passes do nothing.
    pub paused: bool,
}

impl Rain {
    /// Everything well-formedness asks of the grids and parameters:
    /// shared dimensions, symbol indices inside the table.
    pub open spec fn grids_wf(self) -> bool {
        &&& self.args.wf()
        &&& 1 <= self.symbols@.len() <= 0xffff
        &&& grid_dims(grid_view(self.runes@), self.width as int, self.height as int)
        &&& grid_dims(grid_view(self.prev_frame@), self.width as int, self.height as int)
        &&& self.rune_rngs@.len() == self.height
        &&& forall|r: int|
            0 <= r < self.height ==> (#[trigger] self.rune_rngs@[r])@.len() == self.width
        &&& grid_symbols_ok(grid_view(self.runes@), self.symbols@.len() as int)
        &&& grid_symbols_ok(grid_view(self.prev_frame@), self.symbols@.len() as int)
    }

    /// What well-formedness asks of one live streak.
    pub open spec fn line_ok(self, l: Line) -> bool {
        &&& l.wf()
        &&& l.column < self.width
        &&& l.head_row <= l.length + 0xffff
    }

    /// Well-formedness: grids share the configured dimensions, symbol
    /// indices point into the table, and every live streak is sane.
    pub open spec fn wf(self) -> bool {
        &&& self.grids_wf()
        &&& forall|i: int| 0 <= i < self.lines@.len() ==> self.line_ok(#[trigger] self.lines@[i])
    }

    /// A fresh, empty simulation: no cells, no streaks, running.  The
    /// grid gets its dimensions from the first resize.
    pub fn new(args: Config, symbols: Vec<char>, seed: u64) -> (r: Rain)
        requires
            args.wf(),
            1 <= symbols@.len() <= 0xffff,
        ensures
            r.wf(),
            r.width == 0,
            r.height == 0,
            r.lines@.len() == 0,
            r.args == args,
            r.symbols == symbols,
            r.needs_refresh == false,
            r.paused == false,
    {
        Rain {
            width: 0,
            height: 0,
            runes: Vec::new(),
            prev_frame: Vec::new(),
            rune_rngs: Vec::new(),
            lines: Vec::new(),
            rng: entropy::rng_from_seed(seed),
            args,
            symbols,
            needs_refresh: false,
            paused: false,
        }
    }

    /// Stop simulating and rendering until `play` is called.
    pub fn pause(&mut self)
        ensures
            *final(self) == (Rain { paused: true, ..*old(self) }),
    {
        self.paused = true
    }

    /// Resume after a `pause`.
    pub fn play(&mut self)
        ensures
            *final(self) == (Rain { paused: false, ..*old(self) }),
    {
        self.paused = false
    }

    /// The cell at `(row, col)`, if it is on the grid.
    pub fn rune_at(&self, row: usize, col: usize) -> (r: Option<Rune>)
        requires
            self.wf(),
        ensures
            r == if row < self.height && col < self.width {
                Some(grid_view(self.runes@)[row as int][col as int])
            } else {
                Option::<Rune>::None
            },
    {
        if row < self.height as usize && col < self.width as usize {
            proof {
                assert(grid_view(self.runes@)[row as int] == self.runes@[row as int]@);
            }
            Some(self.runes[row][col])
        } else {
            None
        }
    }

    /// One round of ambient aging: every cell undergoes its four trials,
    /// using the cell's own generator.  With all four probabilities zero
    /// the grid is left untouched.  Does nothing while paused.
    pub fn update_background_noise(&mut self)
        requires
            old(self).wf(),
        ensures
            final(self).wf(),
            final(self).width == old(self).width,
            final(self).height == old(self).height,
            final(self).prev_frame == old(self).prev_frame,
            final(self).lines == old(self).lines,
            final(self).args == old(self).args,
            final(self).symbols == old(self).symbols,
            final(self).needs_refresh == old(self).needs_refresh,
            final(self).paused == old(self).paused,
            old(self).paused ==> *final(self) == *old(self),
            !old(self).paused ==> ambient_rel(
                grid_view(old(self).runes@),
                grid_view(final(self).runes@),
                old(self).args,
                old(self).symbols@.len() as int,
            ),
            ambient_never(old(self).args) ==> grid_view(final(self).runes@) == grid_view(
                old(self).runes@,
            ),
    {
        if self.paused {
            return ;
        }
        let ghost old_grid = grid_view(old(self).runes@);
        let ghost nsym_g = self.symbols@.len() as int;
        let nsym: u32 = self.symbols.len() as u32;
        let h: usize = self.height as usize;
        let w: usize = self.width as usize;
        let mut r: usize = 0;
        while r < h
            invariant
                self.wf(),
                r <= h,
                h == self.height,
                w == self.width,
                1 <= nsym == self.symbols@.len(),
                nsym_g == self.symbols@.len() as int,
                self.width == old(self).width,
                self.height == old(self).height,
                self.prev_frame == old(self).prev_frame,
                self.lines == old(self).lines,
                self.args == old(self).args,
                self.symbols == old(self).symbols,
                self.needs_refresh == old(self).needs_refresh,
                self.paused == old(self).paused,
                old_grid == grid_view(old(self).runes@),
                grid_dims(old_grid, w as int, h as int),
                grid_view(self.runes@).len() == h,
                forall|ri: int|
                    r <= ri < h ==> #[trigger] grid_view(self.runes@)[ri] == old_grid[ri],
                forall|ri: int, ci: int|
                    0 <= ri < r && 0 <= ci < w ==> #[trigger] cell_aged(
                        old_grid[ri][ci],
                        grid_view(self.runes@)[ri][ci],
                        self.args,
                        nsym_g,
                    ),
                ambient_never(self.args) ==> forall|ri: int|
                    0 <= ri < r ==> #[trigger] grid_view(self.runes@)[ri] == old_grid[ri],
            decreases h - r,
        {
            let mut c: usize = 0;
            while c < w
                invariant
                    self.wf(),
                    r < h,
                    c <= w,
                    h == self.height,
                    w == self.width,
                    1 <= nsym == self.symbols@.len(),
                    nsym_g == self.symbols@.len() as int,
                    self.width == old(self).width,
                    self.height == old(self).height,
                    self.prev_frame == old(self).prev_frame,
                    self.lines == old(self).lines,
                    self.args == old(self).args,
                    self.symbols == old(self).symbols,
                    self.needs_refresh == old(self).needs_refresh,
                    self.paused == old(self).paused,
                    old_grid == grid_view(old(self).runes@),
                    grid_dims(old_grid, w as int, h as int),
                    grid_view(self.runes@).len() == h,
                    forall|ri: int|
                        r < ri < h ==> #[trigger] grid_view(self.runes@)[ri] == old_grid[ri],
                    forall|ci: int|
                        c <= ci < w ==> #[trigger] grid_view(self.runes@)[r as int][ci]
                            == old_grid[r as int][ci],
                    forall|ri: int, ci: int|
                        0 <= ri < r && 0 <= ci < w ==> #[trigger] cell_aged(
                            old_grid[ri][ci],
                            grid_view(self.runes@)[ri][ci],
                            self.args,
                            nsym_g,
                        ),
                    forall|ci: int|
                        0 <= ci < c ==> #[trigger] cell_aged(
                            old_grid[r as int][ci],
                            grid_view(self.runes@)[r as int][ci],
                            self.args,
                            nsym_g,
                        ),
                    ambient_never(self.args) ==> forall|ri: int|
                        0 <= ri < r ==> #[trigger] grid_view(self.runes@)[ri] == old_grid[ri],
                    ambient_never(self.args) ==> forall|ci: int|
                        0 <= ci < c ==> #[trigger] grid_view(self.runes@)[r as int][ci]
                            == old_grid[r as int][ci],
                decreases w - c,
            {
                let ghost before = grid_view(self.runes@);
                proof {
                    assert(self.rune_rngs@.len() == h);
                    assert(self.rune_rngs@[r as int]@.len() == w);
                    assert(self.runes@.len() == grid_view(self.runes@).len());
                    assert(grid_view(self.runes@)[r as int] == self.runes@[r as int]@);
                }
                let d: Draws = crate::ambient::draw_draws(
                    &mut self.rune_rngs[r][c],
                    &self.args,
                    nsym,
                );
                let cur: Rune = self.runes[r][c];
                let aged: Rune = crate::ambient::age_rune(cur, d, &self.args);
                self.runes[r][c] = aged;
                proof {
                    let after = grid_view(self.runes@);
                    assert(after[r as int] == self.runes@[r as int]@);
                    assert forall|ri: int| 0 <= ri < h && ri != r implies #[trigger] after[ri]
                        == before[ri] by {
                        assert(after[ri] == self.runes@[ri]@);
                    }
                    assert(after[r as int] =~= before[r as int].update(c as int, aged));
                    assert(cur == old_grid[r as int][c as int]);
                    assert(cell_aged(old_grid[r as int][c as int], aged, self.args, nsym_g));
                    if ambient_never(self.args) {
                        crate::ambient::lemma_ambient_identity(cur, d, self.args);
                        assert(after[r as int][c as int] == old_grid[r as int][c as int]);
                    }
                }
                c += 1;
            }
            proof {
                if ambient_never(self.args) {
                    assert(grid_view(self.runes@)[r as int] =~= old_grid[r as int]);
                }
            }
            r += 1;
        }
        proof {
            if ambient_never(self.args) {
                assert(grid_view(self.runes@) =~= old_grid);
            }
            assert(ambient_rel(old_grid, grid_view(self.runes@), self.args, nsym_g));
        }
    }

    /// Paint streak `i` onto the grid: recolour the covered rows of its
    /// column, leaving the symbols underneath alone.
    fn paint_one(&mut self, i: usize)
        requires
            old(self).wf(),
            i < old(self).lines@.len(),
        ensures
            final(self).wf(),
            *final(self) == (Rain { runes: final(self).runes, ..*old(self) }),
            grid_view(final(self).runes@) == spec_paint_line(
                grid_view(old(self).runes@),
                old(self).lines@[i as int],
                old(self).args,
            ),
    {
        let ghost g0 = grid_view(old(self).runes@);
        let ghost painted = spec_paint_line(g0, old(self).lines@[i as int], old(self).args);
        let l: Line = self.lines[i];
        let col: usize = l.column as usize;
        let h: u32 = self.height as u32;
        let lo: u32 = if l.head_row >= l.length {
            l.head_row - l.length
        } else {
            0
        };
        let hi: u32 = if l.head_row < h {
            l.head_row
        } else {
            h
        };
        proof {
            lemma_paint_line_shape(g0, l, self.args);
            assert forall|rj: int| 0 <= rj < h implies (spec_line_covers(l, rj) <==> lo <= rj
                < hi) by {}
        }
        if lo < hi {
            let mut row: u32 = lo;
            while row < hi
                invariant
                    self.grids_wf(),
                    lo <= row <= hi,
                    hi <= h,
                    h == self.height,
                    col == l.column < self.width,
                    self.args.wf(),
                    l.wf(),
                    (Rain { runes: old(self).runes, ..*self }) == *old(self),
                    g0 == grid_view(old(self).runes@),
                    painted == spec_paint_line(g0, l, self.args),
                    grid_dims(g0, self.width as int, self.height as int),
                    forall|rj: int| 0 <= rj < h ==> (spec_line_covers(l, rj) <==> lo <= rj < hi),
                    forall|rj: int, cj: int|
                        0 <= rj < h && 0 <= cj < self.width ==> #[trigger] grid_view(
                            self.runes@,
                        )[rj][cj] == (if lo <= rj < row && cj == col {
                            painted[rj][cj]
                        } else {
                            g0[rj][cj]
                        }),
                decreases hi - row,
            {
                proof {
                    assert(grid_view(self.runes@)[row as int] == self.runes@[row as int]@);
                }
                let ghost before = grid_view(self.runes@);
                let cur: Rune = self.runes[row as usize][col];
                match line_color(&l, row, &self.args) {
                    Some(cnew) => {
                        self.runes[row as usize][col] = Rune {
                            symbol_index: cur.symbol_index,
                            color: cnew,
                        };
                    },
                    None => {},
                }
                proof {
                    let after = grid_view(self.runes@);
                    assert forall|rj: int| 0 <= rj < h && rj != row implies #[trigger] after[rj]
                        == before[rj] by {
                        assert(after[rj] == self.runes@[rj]@);
                    }
                    assert(after[row as int] == self.runes@[row as int]@);
                    assert(after[row as int] =~= before[row as int].update(
                        col as int,
                        spec_paint_cell(g0[row as int][col as int], l, row as int, self.args),
                    ));
                }
                row += 1;
            }
        }
        proof {
            assert forall|rj: int| 0 <= rj < h implies #[trigger] grid_view(self.runes@)[rj]
                =~= painted[rj] by {}
            assert(grid_view(self.runes@) =~= painted);
        }
    }

    /// One tick of the streak population: possibly spawn one streak,
    /// advance them all, remove the expired ones, then paint the
    /// survivors over the grid in order.  Does nothing while paused.
    pub fn update_lines(&mut self)
        requires
            old(self).wf(),
        ensures
            final(self).wf(),
            *final(self) == (Rain {
                runes: final(self).runes,
                lines: final(self).lines,
                rng: final(self).rng,
                ..*old(self)
            }),
            old(self).paused ==> *final(self) == *old(self),
            !old(self).paused ==> exists|s: Seq<Line>|
                #[trigger] lines_stepped(
                    old(self).lines@,
                    s,
                    final(self).lines@,
                    old(self).args,
                    old(self).width,
                    old(self).height,
                ),
            !old(self).paused ==> grid_view(final(self).runes@) == spec_paint_all(
                grid_view(old(self).runes@),
                final(self).lines@,
                old(self).args,
            ),
            !old(self).paused && old(self).args.prob_drop.is_never() ==> final(self).lines@
                == old(self).lines@.map_values(|l: Line| spec_advance(l)).filter(
                |l: Line| !spec_expired(l, old(self).height),
            ),
    {
        if self.paused {
            return ;
        }
        let ghost lines0 = self.lines@;
        let ghost g0 = grid_view(self.runes@);
        let ghost mut spawned: Seq<Line> = Seq::empty();
        let h16: u16 = self.height;

        // Spawn: one Bernoulli trial per tick, capacity one streak per row.
        if self.width > 0 && self.lines.len() < self.height as usize {
            let hit: bool = entropy::rng_below(&mut self.rng, self.args.prob_drop.den)
                < self.args.prob_drop.num;
            if hit {
                let col: u16 = entropy::rng_below(&mut self.rng, self.width as u32) as u16;
                let span: u32 = self.args.max_drop_len as u32 - self.args.min_drop_len as u32 + 1;
                let vis_len: u32 = self.args.min_drop_len as u32 + entropy::rng_below(
                    &mut self.rng,
                    span,
                );
                let fspan: u32 = self.args.max_drop_fall_int as u32
                    - self.args.min_drop_fall_int as u32 + 1;
                let fint: u16 = (self.args.min_drop_fall_int as u32 + entropy::rng_below(
                    &mut self.rng,
                    fspan,
                )) as u16;
                let l = Line {
                    column: col,
                    head_row: 0,
                    length: vis_len + self.args.drop_space_len as u32,
                    fall_interval: fint,
                    ticks_since_move: 0,
                };
                self.lines.push(l);
                proof {
                    spawned = seq![l];
                    assert(self.lines@ =~= lines0 + spawned);
                }
            }
        }
        proof {
            if spawned.len() == 0 {
                assert(self.lines@ =~= lines0 + spawned);
            }
        }

        // Advance every streak by one tick.
        let n: usize = self.lines.len();
        let ghost base = self.lines@;
        let mut idx: usize = 0;
        while idx < n
            invariant
                idx <= n,
                self.grids_wf(),
                (Rain { lines: old(self).lines, rng: old(self).rng, ..*self }) == *old(self),
                n == self.lines@.len() == base.len(),
                forall|j: int| 0 <= j < base.len() ==> (*old(self)).line_ok(#[trigger] base[j]),
                forall|j: int|
                    0 <= j < idx ==> #[trigger] self.lines@[j] == spec_advance(base[j]),
                forall|j: int| idx <= j < n ==> #[trigger] self.lines@[j] == base[j],
            decreases n - idx,
        {
            let adv: Line = advance(&self.lines[idx]);
            self.lines[idx] = adv;
            idx += 1;
        }
        proof {
            assert(self.lines@ =~= base.map_values(|l: Line| spec_advance(l)));
        }

        // Prune the streaks whose tail has left the grid.
        let ghost stepped = self.lines@;
        let mut kept: Vec<Line> = Vec::new();
        let mut j: usize = 0;
        while j < n
            invariant
                j <= n,
                self.grids_wf(),
                (Rain { lines: old(self).lines, rng: old(self).rng, ..*self }) == *old(self),
                h16 == self.height,
                n == self.lines@.len() == stepped.len(),
                stepped == self.lines@,
                forall|i: int|
                    0 <= i < stepped.len() ==> (#[trigger] stepped[i]).wf() && stepped[i].column
                        < self.width && stepped[i].head_row <= stepped[i].length + 0x10000,
                kept@ == stepped.subrange(0, j as int).filter(
                    |l: Line| !spec_expired(l, h16),
                ),
                forall|i: int| 0 <= i < kept@.len() ==> self.line_ok(#[trigger] kept@[i]),
            decreases n - j,
        {
            let li: Line = self.lines[j];
            let is_exp: bool = expired(&li, h16);
            proof {
                lemma_filter_push(
                    stepped.subrange(0, j as int),
                    |l: Line| !spec_expired(l, h16),
                    li,
                );
                assert(stepped.subrange(0, j as int).push(li) =~= stepped.subrange(
                    0,
                    j as int + 1,
                ));
            }
            if !is_exp {
                kept.push(li);
            }
            j += 1;
        }
        proof {
            assert(stepped.subrange(0, n as int) =~= stepped);
        }
        self.lines = kept;

        // Paint the surviving streaks, in order, over the aged grid.
        let m: usize = self.lines.len();
        let ghost pruned = self.lines@;
        let mut p: usize = 0;
        while p < m
            invariant
                p <= m,
                self.wf(),
                (Rain {
                    runes: old(self).runes,
                    lines: old(self).lines,
                    rng: old(self).rng,
                    ..*self
                }) == *old(self),
                m == self.lines@.len(),
                pruned == self.lines@,
                g0 == grid_view(old(self).runes@),
                grid_view(self.runes@) == spec_paint_all(
                    g0,
                    pruned.subrange(0, p as int),
                    self.args,
                ),
            decreases m - p,
        {
            proof {
                assert(spec_paint_all(g0, pruned.subrange(0, p as int), self.args) == grid_view(
                    self.runes@,
                ));
            }
            self.paint_one(p);
            proof {
                lemma_paint_all_push(g0, pruned.subrange(0, p as int), pruned[p as int], self.args);
                assert(pruned.subrange(0, p as int).push(pruned[p as int]) =~= pruned.subrange(
                    0,
                    p as int + 1,
                ));
            }
            p += 1;
        }
        proof {
            assert(pruned.subrange(0, m as int) =~= pruned);
            assert(lines_stepped(lines0, spawned, self.lines@, self.args, self.width, h16));
            if self.args.prob_drop.is_never() {
                assert(lines0 + spawned =~= lines0);
            }
        }
    }

    /// One full simulation tick: ambient aging of every cell first, then
    /// the streak population steps and paints over it, so streak colour
    /// always wins where they overlap.  With every probability zero and
    /// no streak in flight the grid is exactly stable.  Does nothing
    /// while paused.
    pub fn update(&mut self)
        requires
            old(self).wf(),
        ensures
            final(self).wf(),
            *final(self) == (Rain {
                runes: final(self).runes,
                lines: final(self).lines,
                rng: final(self).rng,
                rune_rngs: final(self).rune_rngs,
                ..*old(self)
            }),
            old(self).paused ==> *final(self) == *old(self),
            !old(self).paused ==> exists|mid: Seq<Seq<Rune>>, s: Seq<Line>|
                {
                    &&& #[trigger] ambient_rel(
                        grid_view(old(self).runes@),
                        mid,
                        old(self).args,
                        old(self).symbols@.len() as int,
                    )
                    &&& #[trigger] lines_stepped(
                        old(self).lines@,
                        s,
                        final(self).lines@,
                        old(self).args,
                        old(self).width,
                        old(self).height,
                    )
                    &&& grid_view(final(self).runes@) == spec_paint_all(
                        mid,
                        final(self).lines@,
                        old(self).args,
                    )
                },
            !old(self).paused && ambient_never(old(self).args) && old(
                self,
            ).args.prob_drop.is_never() && old(self).lines@.len() == 0 ==> grid_view(
                final(self).runes@,
            ) == grid_view(old(self).runes@) && final(self).lines@.len() == 0,
    {
        if self.paused {
            return ;
        }
        let ghost g0 = grid_view(self.runes@);
        let ghost lines0 = self.lines@;
        self.update_background_noise();
        let ghost mid = grid_view(self.runes@);
        self.update_lines();
        proof {
            let s = choose|s: Seq<Line>|
                lines_stepped(lines0, s, self.lines@, self.args, self.width, self.height);
            assert(ambient_rel(g0, mid, self.args, self.symbols@.len() as int) && lines_stepped(
                lines0,
                s,
                self.lines@,
                self.args,
                self.width,
                self.height,
            ));
            if ambient_never(self.args) && self.args.prob_drop.is_never() && lines0.len() == 0 {
                assert(mid == g0);
                assert(lines0 + s =~= lines0);
                assert(lines0.map_values(|l: Line| spec_advance(l)) =~= Seq::<Line>::empty());
                assert(self.lines@ =~= Seq::<Line>::empty());
            }
        }
    }

    /// Adopt a new grid size: cells both sizes share are preserved, grown
    /// area cells start black with a random symbol (blank in the frame the
    /// terminal shows), streaks whose column fell off the edge are
    /// removed, every cell gets a fresh generator, and the next render
    /// pass redraws everything.
    pub fn update_frame_size(&mut self, width: u16, height: u16)
        requires
            old(self).wf(),
        ensures
            final(self).wf(),
            final(self).width == width,
            final(self).height == height,
            final(self).needs_refresh,
            final(self).args == old(self).args,
            final(self).symbols == old(self).symbols,
            final(self).paused == old(self).paused,
            resized_ok(
                grid_view(old(self).runes@),
                grid_view(final(self).runes@),
                width as int,
                height as int,
                old(self).width as int,
                old(self).height as int,
                old(self).symbols@.len() as int,
            ),
            resized_ok(
                grid_view(old(self).prev_frame@),
                grid_view(final(self).prev_frame@),
                width as int,
                height as int,
                old(self).width as int,
                old(self).height as int,
                old(self).symbols@.len() as int,
            ),
            forall|r: int, c: int|
                0 <= r < height && 0 <= c < width && (r >= old(self).height || c >= old(
                    self,
                ).width) ==> #[trigger] grid_view(final(self).prev_frame@)[r][c] == (Rune {
                    symbol_index: 0,
                    color: 0,
                }),
            final(self).lines@ == old(self).lines@.filter(|l: Line| l.column < width),
    {
        let ghost old_runes = grid_view(self.runes@);
        let ghost old_prev = grid_view(self.prev_frame@);
        let ghost ow = self.width as int;
        let ghost oh = self.height as int;
        let nsym: u32 = self.symbols.len() as u32;
        let w: usize = width as usize;
        let h: usize = height as usize;
        let oldw: usize = self.width as usize;
        let oldh: usize = self.height as usize;

        // The simulation surface: keep the overlap, grow with random
        // symbols on black.
        let mut new_runes: Vec<Vec<Rune>> = Vec::new();
        let mut r: usize = 0;
        while r < h
            invariant
                r <= h,
                self.wf(),
                (Rain { rng: old(self).rng, ..*self }) == *old(self),
                old_runes == grid_view(old(self).runes@),
                ow == self.width as int,
                oh == self.height as int,
                oldw == self.width,
                oldh == self.height,
                1 <= nsym == self.symbols@.len(),
                new_runes@.len() == r,
                forall|rj: int| 0 <= rj < r ==> (#[trigger] new_runes@[rj])@.len() == w,
                forall|rj: int, cj: int|
                    0 <= rj < r && 0 <= cj < w ==> (#[trigger] new_runes@[rj]@[cj]) == (if rj < oh
                        && cj < ow {
                        old_runes[rj][cj]
                    } else {
                        new_runes@[rj]@[cj]
                    }) && (rj >= oh || cj >= ow ==> new_runes@[rj]@[cj].color == 0
                        && new_runes@[rj]@[cj].symbol_index < nsym),
            decreases h - r,
        {
            let mut rowv: Vec<Rune> = Vec::new();
            let mut c: usize = 0;
            while c < w
                invariant
                    c <= w,
                    r < h,
                    self.wf(),
                    (Rain { rng: old(self).rng, ..*self }) == *old(self),
                    old_runes == grid_view(old(self).runes@),
                    ow == self.width as int,
                    oh == self.height as int,
                    oldw == self.width,
                    oldh == self.height,
                    1 <= nsym == self.symbols@.len(),
                    rowv@.len() == c,
                    forall|cj: int|
                        0 <= cj < c ==> (#[trigger] rowv@[cj]) == (if (r as int) < oh && cj < ow {
                            old_runes[r as int][cj]
                        } else {
                            rowv@[cj]
                        }) && (r as int >= oh || cj >= ow ==> rowv@[cj].color == 0
                            && rowv@[cj].symbol_index < nsym),
                decreases w - c,
            {
                if r < oldh && c < oldw {
                    proof {
                        assert(grid_view(self.runes@)[r as int] == self.runes@[r as int]@);
                        assert(old_runes[r as int] == old(self).runes@[r as int]@);
                    }
                    let cell: Rune = self.runes[r][c];
                    rowv.push(cell);
                } else {
                    let sym: usize = entropy::rng_below(&mut self.rng, nsym) as usize;
                    rowv.push(Rune { symbol_index: sym, color: 0 });
                }
                c += 1;
            }
            new_runes.push(rowv);
            r += 1;
        }

        // The frame the terminal shows: keep the overlap, grow with blank
        // cells.
        let mut new_prev: Vec<Vec<Rune>> = Vec::new();
        let mut r2: usize = 0;
        while r2 < h
            invariant
                r2 <= h,
                self.wf(),
                (Rain { rng: old(self).rng, ..*self }) == *old(self),
                old_prev == grid_view(old(self).prev_frame@),
                ow == self.width as int,
                oh == self.height as int,
                oldw == self.width,
                oldh == self.height,
                new_prev@.len() == r2,
                forall|rj: int| 0 <= rj < r2 ==> (#[trigger] new_prev@[rj])@.len() == w,
                forall|rj: int, cj: int|
                    0 <= rj < r2 && 0 <= cj < w ==> (#[trigger] new_prev@[rj]@[cj]) == (if rj < oh
                        && cj < ow {
                        old_prev[rj][cj]
                    } else {
                        Rune { symbol_index: 0, color: 0 }
                    }),
            decreases h - r2,
        {
            let mut rowv: Vec<Rune> = Vec::new();
            let mut c2: usize = 0;
            while c2 < w
                invariant
                    c2 <= w,
                    r2 < h,
                    self.wf(),
                    (Rain { rng: old(self).rng, ..*self }) == *old(self),
                    old_prev == grid_view(old(self).prev_frame@),
                    ow == self.width as int,
                    oh == self.height as int,
                    oldw == self.width,
                    oldh == self.height,
                    rowv@.len() == c2,
                    forall|cj: int|
                        0 <= cj < c2 ==> (#[trigger] rowv@[cj]) == (if (r2 as int) < oh && cj < ow {
                            old_prev[r2 as int][cj]
                        } else {
                            Rune { symbol_index: 0, color: 0 }
                        }),
                decreases w - c2,
            {
                if r2 < oldh && c2 < oldw {
                    proof {
                        assert(grid_view(self.prev_frame@)[r2 as int] == self.prev_frame@[r2 as int]@);
                        assert(old_prev[r2 as int] == old(self).prev_frame@[r2 as int]@);
                    }
                    let cell: Rune = self.prev_frame[r2][c2];
                    rowv.push(cell);
                } else {
                    rowv.push(Rune { symbol_index: 0, color: 0 });
                }
                c2 += 1;
            }
            new_prev.push(rowv);
            r2 += 1;
        }

        // Fresh generators for every cell of the new grid.
        let mut new_rngs: Vec<Vec<rand::rngs::SmallRng>> = Vec::new();
        let mut r3: usize = 0;
        while r3 < h
            invariant
                r3 <= h,
                self.wf(),
                (Rain { rng: old(self).rng, ..*self }) == *old(self),
                new_rngs@.len() == r3,
                forall|rj: int| 0 <= rj < r3 ==> (#[trigger] new_rngs@[rj])@.len() == w,
            decreases h - r3,
        {
            let mut rowv: Vec<rand::rngs::SmallRng> = Vec::new();
            let mut c3: usize = 0;
            while c3 < w
                invariant
                    c3 <= w,
                    self.wf(),
                    (Rain { rng: old(self).rng, ..*self }) == *old(self),
                    rowv@.len() == c3,
                decreases w - c3,
            {
                rowv.push(entropy::fork_rng(&mut self.rng));
                c3 += 1;
            }
            new_rngs.push(rowv);
            r3 += 1;
        }

        // Streaks whose column fell off the right edge are removed.
        let n: usize = self.lines.len();
        let ghost lines0 = self.lines@;
        let mut kept: Vec<Line> = Vec::new();
        let mut j: usize = 0;
        while j < n
            invariant
                j <= n,
                self.wf(),
                (Rain { rng: old(self).rng, ..*self }) == *old(self),
                lines0 == self.lines@,
                n == self.lines@.len(),
                kept@ == lines0.subrange(0, j as int).filter(|l: Line| l.column < width),
                forall|i: int|
                    0 <= i < kept@.len() ==> (#[trigger] kept@[i]).wf() && kept@[i].column < width
                        && kept@[i].head_row <= kept@[i].length + 0xffff,
            decreases n - j,
        {
            let li: Line = self.lines[j];
            proof {
                lemma_filter_push(lines0.subrange(0, j as int), |l: Line| l.column < width, li);
                assert(lines0.subrange(0, j as int).push(li) =~= lines0.subrange(0, j as int + 1));
            }
            if li.column < width {
                kept.push(li);
            }
            j += 1;
        }
        proof {
            assert(lines0.subrange(0, n as int) =~= lines0);
        }

        self.runes = new_runes;
        self.prev_frame = new_prev;
        self.rune_rngs = new_rngs;
        self.lines = kept;
        self.width = width;
        self.height = height;
        self.needs_refresh = true;
    }

    /// One render pass: the characters to write so that the terminal
    /// shows the current grid, diffing against what it showed before.  A
    /// cell is written when it is dirty — after a resize every cell is —
    /// and runs of adjacent dirty cells share one cursor move.  Two equal
    /// frames emit nothing.  Afterwards the retained frame matches the
    /// grid.  Does nothing while paused.
    #[verifier::rlimit(100)]
    pub fn render(&mut self) -> (out: Vec<char>)
        requires
            old(self).wf(),
        ensures
            final(self).wf(),
            *final(self) == (Rain {
                prev_frame: final(self).prev_frame,
                needs_refresh: final(self).needs_refresh,
                ..*old(self)
            }),
            old(self).paused ==> out@ == Seq::<char>::empty() && *final(self) == *old(self),
            !old(self).paused ==> out@ == crate::render::spec_render(
                grid_view(old(self).prev_frame@),
                grid_view(old(self).runes@),
                old(self).needs_refresh,
                old(self).symbols@,
                old(self).args.half_width,
            ),
            !old(self).paused ==> grid_view(final(self).prev_frame@) == grid_view(
                old(self).runes@,
            ) && !final(self).needs_refresh,
            !old(self).paused && !old(self).needs_refresh && grid_view(old(self).prev_frame@)
                == grid_view(old(self).runes@) ==> out@ == Seq::<char>::empty(),
    {
        if self.paused {
            return Vec::new();
        }
        let ghost prev0 = grid_view(self.prev_frame@);
        let ghost next0 = grid_view(self.runes@);
        let ghost syms = self.symbols@;
        let refresh: bool = self.needs_refresh;
        let half: bool = self.args.half_width;
        let h: usize = self.height as usize;
        let w: usize = self.width as usize;
        let mut out: Vec<char> = Vec::new();
        let mut y: usize = 0;
        while y < h
            invariant
                y <= h,
                self.wf(),
                *self == *old(self),
                !self.paused,
                prev0 == grid_view(self.prev_frame@),
                next0 == grid_view(self.runes@),
                syms == self.symbols@,
                refresh == self.needs_refresh,
                half == self.args.half_width,
                h == self.height,
                w == self.width,
                out@ == crate::render::spec_frame_diff(prev0, next0, refresh, syms, half, y as int),
            decreases h - y,
        {
            let mut wrote: bool = false;
            let mut x: usize = 0;
            while x < w
                invariant
                    x <= w,
                    y < h,
                    self.wf(),
                    *self == *old(self),
                    !self.paused,
                    prev0 == grid_view(self.prev_frame@),
                    next0 == grid_view(self.runes@),
                    syms == self.symbols@,
                    refresh == self.needs_refresh,
                    half == self.args.half_width,
                    h == self.height,
                    w == self.width,
                    out@ == crate::render::spec_frame_diff(
                        prev0,
                        next0,
                        refresh,
                        syms,
                        half,
                        y as int,
                    ) + crate::render::spec_row_diff(
                        prev0[y as int],
                        next0[y as int],
                        y as int,
                        refresh,
                        syms,
                        half,
                        x as int,
                    ).0,
                    wrote == crate::render::spec_row_diff(
                        prev0[y as int],
                        next0[y as int],
                        y as int,
                        refresh,
                        syms,
                        half,
                        x as int,
                    ).1,
                decreases w - x,
            {
                proof {
                    assert(grid_view(self.prev_frame@)[y as int] == self.prev_frame@[y as int]@);
                    assert(grid_view(self.runes@)[y as int] == self.runes@[y as int]@);
                }
                let pr: Rune = self.prev_frame[y][x];
                let nx: Rune = self.runes[y][x];
                if refresh || pr != nx {
                    if !wrote {
                        let tcol: u32 = if half {
                            x as u32
                        } else {
                            2 * (x as u32)
                        };
                        crate::render::push_move_to(&mut out, y as u16, tcol);
                    }
                    crate::render::push_rune_text(&mut out, nx, &self.symbols, half);
                    wrote = true;
                } else {
                    wrote = false;
                }
                x += 1;
            }
            y += 1;
        }

        // The terminal now shows the current grid: retain a copy of it.
        let mut new_prev: Vec<Vec<Rune>> = Vec::new();
        let mut r: usize = 0;
        while r < h
            invariant
                r <= h,
                self.wf(),
                *self == *old(self),
                next0 == grid_view(self.runes@),
                h == self.height,
                w == self.width,
                new_prev@.len() == r,
                forall|rj: int| 0 <= rj < r ==> (#[trigger] new_prev@[rj])@ == next0[rj],
            decreases h - r,
        {
            let mut rowv: Vec<Rune> = Vec::new();
            let mut c: usize = 0;
            while c < w
                invariant
                    c <= w,
                    r < h,
                    self.wf(),
                    *self == *old(self),
                    next0 == grid_view(self.runes@),
                    h == self.height,
                    w == self.width,
                    rowv@ == next0[r as int].subrange(0, c as int),
                decreases w - c,
            {
                proof {
                    assert(grid_view(self.runes@)[r as int] == self.runes@[r as int]@);
                }
                let cell: Rune = self.runes[r][c];
                rowv.push(cell);
                proof {
                    assert(rowv@ =~= next0[r as int].subrange(0, c as int + 1));
                }
                c += 1;
            }
            proof {
                assert(rowv@ =~= next0[r as int]);
            }
            new_prev.push(rowv);
            r += 1;
        }
        self.prev_frame = new_prev;
        self.needs_refresh = false;
        proof {
            assert(grid_view(self.prev_frame@) =~= next0);
            if !old(self).needs_refresh && prev0 == next0 {
                crate::render::lemma_render_self(next0, syms, half);
            }
        }
        out
    }

    /// Insert a streak by hand, bypassing the spawn draw.
    pub fn add_line(&mut self, l: Line)
        requires
            old(self).wf(),
            l.wf(),
            l.column < old(self).width,
            l.head_row <= l.length + 0xffff,
        ensures
            final(self).wf(),
            *final(self) == (Rain { lines: final(self).lines, ..*old(self) }),
            final(self).lines@ == old(self).lines@.push(l),
    {
        self.lines.push(l);
    }
}

} // verus!
