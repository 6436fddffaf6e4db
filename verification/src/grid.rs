//! The canvas: a fixed square of ink levels.

use vstd::prelude::*;

verus! {

/// Number of columns of the canvas.
pub const WIDTH: i64 = 28;

/// Number of rows of the canvas.
pub const HEIGHT: i64 = 28;

/// The ink level of a fully inked cell, in hundredths.
pub const FULL: u8 = 100;

/// Number of cells of the canvas.
pub const CELL_COUNT: usize = 784;

/// Whether `(x, y)` names a cell of the canvas.
pub open spec fn in_bounds(x: int, y: int) -> bool {
    0 <= x < WIDTH && 0 <= y < HEIGHT
}

/// The nearest ink level to `v`: nothing below zero, nothing above `FULL`.
pub open spec fn clamp_level(v: int) -> int {
    if v < 0 {
        0
    } else if v > FULL {
        FULL as int
    } else {
        v
    }
}

/// Whether `cells` has the shape of a canvas, `cells[x][y]` being the level of
/// cell `(x, y)`, and holds only ink levels.
pub open spec fn is_canvas(cells: Seq<Seq<int>>) -> bool {
    &&& cells.len() == WIDTH
    &&& forall|x: int| 0 <= x < WIDTH ==> (#[trigger] cells[x]).len() == HEIGHT
    &&& forall|x: int, y: int| in_bounds(x, y) ==> 0 <= #[trigger] cells[x][y] <= FULL
}

/// The canvas without ink.
pub open spec fn blank() -> Seq<Seq<int>> {
    Seq::new(WIDTH as nat, |x: int| Seq::new(HEIGHT as nat, |y: int| 0int))
}

/// The level of cell `(x, y)`; outside the canvas there is no ink.
pub open spec fn level_at(cells: Seq<Seq<int>>, x: int, y: int) -> int {
    if in_bounds(x, y) {
        cells[x][y]
    } else {
        0
    }
}

/// `cells` with level `v` written to cell `(x, y)`; a position outside the
/// canvas changes nothing.
pub open spec fn paint(cells: Seq<Seq<int>>, x: int, y: int, v: int) -> Seq<Seq<int>> {
    if in_bounds(x, y) {
        cells.update(x, cells[x].update(y, v))
    } else {
        cells
    }
}

/// `cells` after `delta` was added to cell `(x, y)` and the sum clamped.
pub open spec fn accumulated(cells: Seq<Seq<int>>, x: int, y: int, delta: int) -> Seq<Seq<int>> {
    paint(cells, x, y, clamp_level(level_at(cells, x, y) + delta))
}

/// `cells` after each of `deltas` was accumulated on cell `(x, y)`, in order.
pub open spec fn accumulated_all(cells: Seq<Seq<int>>, x: int, y: int, deltas: Seq<int>) -> Seq<
    Seq<int>,
>
    decreases deltas.len(),
{
    if deltas.len() == 0 {
        cells
    } else {
        accumulated(accumulated_all(cells, x, y, deltas.drop_last()), x, y, deltas.last())
    }
}

/// The drawable area: `WIDTH` by `HEIGHT` cells, each holding an ink level
/// between 0 and `FULL`. It starts blank, is painted in place while a stroke is
/// drawn, and is blanked again by `reset`.
pub struct CanvasGrid {
    cells: [u8; CELL_COUNT],
}

impl CanvasGrid {
    /// No cell ever holds more than `FULL`.
    #[verifier::type_invariant]
    pub closed spec fn well_formed(&self) -> bool {
        forall|i: int| 0 <= i < CELL_COUNT ==> #[trigger] self.cells@[i] <= FULL
    }

    /// The levels of the canvas, column by column: `self@[x][y]` is the level of
    /// cell `(x, y)`.
    pub closed spec fn view(&self) -> Seq<Seq<int>> {
        Seq::new(
            WIDTH as nat,
            |x: int| Seq::new(HEIGHT as nat, |y: int| self.cells@[x * HEIGHT + y] as int),
        )
    }

    /// A well-formed grid is seen as a canvas.
    pub proof fn lemma_view_is_canvas(&self)
        requires
            self.well_formed(),
        ensures
            is_canvas(self@),
    {
    }

    /// A canvas without ink.
    pub fn new() -> (grid: Self)
        ensures
            grid@ == blank(),
            is_canvas(grid@),
    {
        let grid = CanvasGrid { cells: [0u8; CELL_COUNT] };
        assert(grid@ =~~= blank());
        grid
    }

    /// The level of cell `(x, y)`, and 0 for a position outside the canvas.
    pub fn get(&self, x: i64, y: i64) -> (level: u8)
        ensures
            level == level_at(self@, x as int, y as int),
            level <= FULL,
    {
        proof {
            use_type_invariant(self);
        }
        if 0 <= x && x < WIDTH && 0 <= y && y < HEIGHT {
            let i: usize = (x * HEIGHT + y) as usize;
            self.cells[i]
        } else {
            0
        }
    }

    /// Writes `value`, clamped to an ink level, to cell `(x, y)`. A position
    /// outside the canvas changes nothing.
    pub fn set(&mut self, x: i64, y: i64, value: i64)
        ensures
            final(self)@ == paint(old(self)@, x as int, y as int, clamp_level(value as int)),
            is_canvas(final(self)@),
            in_bounds(x as int, y as int) ==> level_at(final(self)@, x as int, y as int)
                == clamp_level(value as int),
            forall|i: int, j: int|
                !(i == x && j == y) ==> level_at(final(self)@, i, j) == level_at(old(self)@, i, j),
        no_unwind
    {
        proof {
            use_type_invariant(&*self);
        }
        if 0 <= x && x < WIDTH && 0 <= y && y < HEIGHT {
            let level: u8 = if value < 0 {
                0
            } else if value > FULL as i64 {
                FULL
            } else {
                value as u8
            };
            let i: usize = (x * HEIGHT + y) as usize;
            self.cells[i] = level;
            assert(self@ =~~= paint(old(self)@, x as int, y as int, clamp_level(value as int)));
        }
    }

    /// Adds `delta` to the level of cell `(x, y)` and clamps the sum to an ink
    /// level, so that repeated passes saturate at `FULL`. A position outside the
    /// canvas changes nothing.
    pub fn accumulate(&mut self, x: i64, y: i64, delta: i64)
        ensures
            final(self)@ == accumulated(old(self)@, x as int, y as int, delta as int),
            is_canvas(final(self)@),
            0 <= level_at(final(self)@, x as int, y as int) <= FULL,
            in_bounds(x as int, y as int) ==> level_at(final(self)@, x as int, y as int)
                == clamp_level(level_at(old(self)@, x as int, y as int) + delta),
            forall|i: int, j: int|
                !(i == x && j == y) ==> level_at(final(self)@, i, j) == level_at(old(self)@, i, j),
        no_unwind
    {
        proof {
            use_type_invariant(&*self);
        }
        if 0 <= x && x < WIDTH && 0 <= y && y < HEIGHT {
            let i: usize = (x * HEIGHT + y) as usize;
            let current: u8 = self.cells[i];
            let level: u8 = if delta >= (FULL - current) as i64 {
                FULL
            } else if delta <= -(current as i64) {
                0
            } else {
                (current as i64 + delta) as u8
            };
            self.cells[i] = level;
            assert(self@ =~~= accumulated(old(self)@, x as int, y as int, delta as int));
        }
    }

    /// Removes all ink.
    pub fn reset(&mut self)
        ensures
            final(self)@ == blank(),
            is_canvas(final(self)@),
            forall|x: int, y: int| level_at(final(self)@, x, y) == 0,
        no_unwind
    {
        proof {
            use_type_invariant(&*self);
        }
        let mut i: usize = 0;
        while i < CELL_COUNT
            invariant
                i <= CELL_COUNT,
                forall|k: int| 0 <= k < i ==> #[trigger] self.cells@[k] == 0,
                forall|k: int| i <= k < CELL_COUNT ==> #[trigger] self.cells@[k] <= FULL,
            decreases CELL_COUNT - i,
        {
            self.cells[i] = 0;
            i = i + 1;
        }
        assert(self@ =~~= blank());
    }
}

/// Painting an ink level on a canvas gives a canvas.
pub proof fn lemma_paint_is_canvas(cells: Seq<Seq<int>>, x: int, y: int, v: int)
    requires
        is_canvas(cells),
        0 <= v <= FULL,
    ensures
        is_canvas(paint(cells, x, y, v)),
        level_at(paint(cells, x, y, v), x, y) == if in_bounds(x, y) {
            v
        } else {
            0
        },
        forall|i: int, j: int|
            !(i == x && j == y) ==> level_at(paint(cells, x, y, v), i, j) == level_at(cells, i, j),
{
}

/// However many times, and by whatever amounts, ink is accumulated on a cell of
/// a canvas, the result is a canvas and the level of that cell is an ink level:
/// it never falls below 0 and never exceeds `FULL`.
pub proof fn lemma_accumulate_stays_clamped(cells: Seq<Seq<int>>, x: int, y: int, deltas: Seq<int>)
    requires
        is_canvas(cells),
    ensures
        is_canvas(accumulated_all(cells, x, y, deltas)),
        0 <= level_at(accumulated_all(cells, x, y, deltas), x, y) <= FULL,
    decreases deltas.len(),
{
    if deltas.len() > 0 {
        lemma_accumulate_stays_clamped(cells, x, y, deltas.drop_last());
        let before = accumulated_all(cells, x, y, deltas.drop_last());
        lemma_paint_is_canvas(before, x, y, clamp_level(level_at(before, x, y) + deltas.last()));
    }
}

/// After a reset every cell is without ink, whatever the canvas held.
pub proof fn lemma_blank_has_no_ink(x: int, y: int)
    ensures
        is_canvas(blank()),
        level_at(blank(), x, y) == 0,
{
}

} // verus!
