//! The brush: one stamp inks a cell fully and shades the cells around it.

use vstd::prelude::*;
use crate::grid::{in_bounds, is_canvas, level_at, clamp_level, CanvasGrid, FULL, WIDTH, HEIGHT};

verus! {

/// What a stamp adds to the cells beside its centre, in hundredths.
pub const EDGE_WEIGHT: i64 = 25;

/// What a stamp adds to the cells diagonal to its centre, in hundredths.
pub const CORNER_WEIGHT: i64 = 10;

/// Whether `(dx, dy)` is an offset within the three-by-three brush.
pub open spec fn in_kernel(dx: int, dy: int) -> bool {
    -1 <= dx <= 1 && -1 <= dy <= 1
}

/// The weight of the brush at offset `(dx, dy)` from its centre, in
/// hundredths, and 0 beyond the brush:
///
/// ```text
///  10  25  10
///  25 100  25
///  10  25  10
/// ```
pub open spec fn kernel_weight(dx: int, dy: int) -> int {
    if !in_kernel(dx, dy) {
        0
    } else if dx == 0 && dy == 0 {
        FULL as int
    } else if dx == 0 || dy == 0 {
        EDGE_WEIGHT as int
    } else {
        CORNER_WEIGHT as int
    }
}

/// The level of cell `(x, y)` after one stamp centred on cell `(cx, cy)` of
/// `cells`: the centre is fully inked whatever it held, each of the eight cells
/// around it gains its kernel weight and saturates at `FULL`, and every other
/// cell keeps its level.
pub open spec fn stamped_level(cells: Seq<Seq<int>>, cx: int, cy: int, x: int, y: int) -> int {
    if x == cx && y == cy {
        FULL as int
    } else if in_kernel(x - cx, y - cy) {
        clamp_level(cells[x][y] + kernel_weight(x - cx, y - cy))
    } else {
        cells[x][y]
    }
}

/// `cells` after one stamp centred on `(cx, cy)`. A centre outside the canvas
/// leaves no mark.
pub open spec fn stamped(cells: Seq<Seq<int>>, cx: int, cy: int) -> Seq<Seq<int>> {
    if in_bounds(cx, cy) {
        Seq::new(
            WIDTH as nat,
            |x: int| Seq::new(HEIGHT as nat, |y: int| stamped_level(cells, cx, cy, x, y)),
        )
    } else {
        cells
    }
}

/// `cells` after `n` stamps on `(cx, cy)`, one after the other.
pub open spec fn stamped_times(cells: Seq<Seq<int>>, cx: int, cy: int, n: nat) -> Seq<Seq<int>>
    decreases n,
{
    if n == 0 {
        cells
    } else {
        stamped(stamped_times(cells, cx, cy, (n - 1) as nat), cx, cy)
    }
}

/// The level of cell `(x, y)` while a stamp on `(cx, cy)` is under way: the
/// centre is inked, and of the cells around it those at an offset before
/// `(dx, dy)`, column by column, have been shaded.
spec fn shaded_level(cells: Seq<Seq<int>>, cx: int, cy: int, dx: int, dy: int, x: int, y: int) -> int {
    if x - cx < dx || (x - cx == dx && y - cy < dy) {
        stamped_level(cells, cx, cy, x, y)
    } else if x == cx && y == cy {
        FULL as int
    } else {
        cells[x][y]
    }
}

spec fn shaded(cells: Seq<Seq<int>>, cx: int, cy: int, dx: int, dy: int) -> Seq<Seq<int>> {
    Seq::new(
        WIDTH as nat,
        |x: int| Seq::new(HEIGHT as nat, |y: int| shaded_level(cells, cx, cy, dx, dy, x, y)),
    )
}

/// The weight of the brush at offset `(dx, dy)`.
pub fn weight(dx: i64, dy: i64) -> (w: i64)
    ensures
        w == kernel_weight(dx as int, dy as int),
    no_unwind
{
    if dx < -1 || dx > 1 || dy < -1 || dy > 1 {
        0
    } else if dx == 0 && dy == 0 {
        FULL as i64
    } else if dx == 0 || dy == 0 {
        EDGE_WEIGHT
    } else {
        CORNER_WEIGHT
    }
}

/// Stamps the brush on cell `(x, y)`: sets that cell to `FULL`, then accumulates
/// the kernel weight on each of the eight cells around it that lies on the
/// canvas. Cells off the canvas are passed over, and a centre off the canvas
/// leaves no mark.
pub fn stamp(grid: &mut CanvasGrid, x: i64, y: i64)
    ensures
        final(grid)@ == stamped(old(grid)@, x as int, y as int),
        is_canvas(final(grid)@),
        in_bounds(x as int, y as int) ==> level_at(final(grid)@, x as int, y as int) == FULL,
    no_unwind
{
    proof {
        use_type_invariant(&*grid);
        grid.lemma_view_is_canvas();
    }
    if 0 <= x && x < WIDTH && 0 <= y && y < HEIGHT {
        let ghost before = grid@;
        grid.set(x, y, FULL as i64);
        assert(grid@ =~~= shaded(before, x as int, y as int, -1, -1));
        let mut dx: i64 = -1;
        while dx <= 1
            invariant
                in_bounds(x as int, y as int),
                is_canvas(before),
                -1 <= dx <= 2,
                grid@ == shaded(before, x as int, y as int, dx as int, -1),
            decreases 2 - dx,
        {
            let mut dy: i64 = -1;
            while dy <= 1
                invariant
                    in_bounds(x as int, y as int),
                    is_canvas(before),
                    -1 <= dx <= 1,
                    -1 <= dy <= 2,
                    grid@ == shaded(before, x as int, y as int, dx as int, dy as int),
                decreases 2 - dy,
            {
                if dx != 0 || dy != 0 {
                    grid.accumulate(x + dx, y + dy, weight(dx, dy));
                }
                dy = dy + 1;
                assert(grid@ =~~= shaded(before, x as int, y as int, dx as int, dy as int));
            }
            dx = dx + 1;
            assert(grid@ =~~= shaded(before, x as int, y as int, dx as int, -1));
        }
        assert(grid@ =~~= stamped(before, x as int, y as int));
    }
}

/// The cell under the brush is fully inked after a stamp, whatever it held
/// before.
pub proof fn lemma_stamp_inks_centre(cells: Seq<Seq<int>>, cx: int, cy: int)
    requires
        in_bounds(cx, cy),
    ensures
        level_at(stamped(cells, cx, cy), cx, cy) == FULL,
{
}

/// A stamp anywhere, the edges and corners of the canvas included, gives a
/// canvas again: it writes to no cell off the canvas, and changes no cell but
/// the centre and the cells around it.
pub proof fn lemma_stamp_stays_on_canvas(cells: Seq<Seq<int>>, cx: int, cy: int)
    requires
        is_canvas(cells),
    ensures
        is_canvas(stamped(cells, cx, cy)),
        forall|x: int, y: int|
            !in_kernel(x - cx, y - cy) ==> level_at(stamped(cells, cx, cy), x, y) == level_at(
                cells,
                x,
                y,
            ),
{
}

/// Repeated stamps on one cell saturate: after `n` stamps, one or more, the
/// centre is fully inked, each cell around it holds its first level plus `n`
/// times its kernel weight, clamped at `FULL`, and all other cells are as they
/// were.
pub proof fn lemma_repeated_stamps_saturate(
    cells: Seq<Seq<int>>,
    cx: int,
    cy: int,
    n: nat,
    x: int,
    y: int,
)
    requires
        is_canvas(cells),
        in_bounds(cx, cy),
        in_bounds(x, y),
        n >= 1,
    ensures
        is_canvas(stamped_times(cells, cx, cy, n)),
        level_at(stamped_times(cells, cx, cy, n), x, y) == if x == cx && y == cy {
            FULL as int
        } else if in_kernel(x - cx, y - cy) {
            clamp_level(cells[x][y] + n * kernel_weight(x - cx, y - cy))
        } else {
            cells[x][y]
        },
    decreases n,
{
    let w = kernel_weight(x - cx, y - cy);
    if n == 1 {
        assert(stamped_times(cells, cx, cy, 0) == cells);
        assert(stamped_times(cells, cx, cy, 1) == stamped(cells, cx, cy));
        lemma_stamp_stays_on_canvas(cells, cx, cy);
        assert(1 * w == w);
    } else {
        let before = stamped_times(cells, cx, cy, (n - 1) as nat);
        lemma_repeated_stamps_saturate(cells, cx, cy, (n - 1) as nat, x, y);
        lemma_stamp_stays_on_canvas(before, cx, cy);
        assert(n * w == (n - 1) * w + w) by (nonlinear_arith);
        assert((n - 1) * w >= 0) by (nonlinear_arith)
            requires
                n >= 1,
                w >= 0,
        ;
    }
}

} // verus!
