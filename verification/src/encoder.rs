//! The encoder: lays the canvas out as the classifier's input.

use vstd::prelude::*;
use crate::grid::{in_bounds, is_canvas, CanvasGrid, CELL_COUNT, HEIGHT, WIDTH};

verus! {

/// Length of an encoded canvas: one level for each cell.
pub const FLAT_LEN: usize = CELL_COUNT;

/// Where the level of cell `(x, y)` stands in an encoded canvas: rows follow
/// one another, and within a row the cells go by `x`.
pub open spec fn flat_index(x: int, y: int) -> int {
    y * WIDTH + x
}

/// The encoding of `cells`: the level of cell `(x, y)` stands at
/// `flat_index(x, y)`.
pub open spec fn flattened(cells: Seq<Seq<int>>) -> Seq<u8> {
    Seq::new(FLAT_LEN as nat, |i: int| cells[i % (WIDTH as int)][i / (WIDTH as int)] as u8)
}

/// `cells` with its two axes exchanged.
pub open spec fn transposed(cells: Seq<Seq<int>>) -> Seq<Seq<int>> {
    Seq::new(WIDTH as nat, |x: int| Seq::new(HEIGHT as nat, |y: int| cells[y][x]))
}

/// The shape of the classifier's input: one image of one channel, `HEIGHT` rows
/// of `WIDTH` levels. An encoded canvas fills it exactly.
pub fn tensor_shape() -> (shape: [i64; 4])
    ensures
        shape@ == seq![1i64, 1i64, HEIGHT, WIDTH],
        shape@[0] * shape@[1] * shape@[2] * shape@[3] == FLAT_LEN,
{
    [1, 1, HEIGHT, WIDTH]
}

/// Encodes the canvas as `FLAT_LEN` levels in the order the classifier was
/// trained with: the outer index is the row `y`, the inner one the column `x`.
pub fn encode(grid: &CanvasGrid) -> (flat: Vec<u8>)
    ensures
        flat@ == flattened(grid@),
        flat@.len() == FLAT_LEN,
{
    let mut flat: Vec<u8> = Vec::with_capacity(FLAT_LEN);
    let mut y: i64 = 0;
    while y < HEIGHT
        invariant
            0 <= y <= HEIGHT,
            flat@.len() == y * WIDTH,
            forall|i: int| 0 <= i < flat@.len() ==> #[trigger] flat@[i] == flattened(grid@)[i],
        decreases HEIGHT - y,
    {
        let mut x: i64 = 0;
        while x < WIDTH
            invariant
                0 <= y < HEIGHT,
                0 <= x <= WIDTH,
                flat@.len() == y * WIDTH + x,
                forall|i: int| 0 <= i < flat@.len() ==> #[trigger] flat@[i] == flattened(grid@)[i],
            decreases WIDTH - x,
        {
            let level = grid.get(x, y);
            flat.push(level);
            x = x + 1;
        }
        y = y + 1;
    }
    assert(flat@ =~= flattened(grid@));
    flat
}

/// The level of every cell of a canvas can be read off its encoding, at the
/// cell's flat index.
pub proof fn lemma_encoding_layout(cells: Seq<Seq<int>>, x: int, y: int)
    requires
        is_canvas(cells),
        in_bounds(x, y),
    ensures
        0 <= flat_index(x, y) < FLAT_LEN,
        flattened(cells)[flat_index(x, y)] == cells[x][y],
{
}

/// Encoding is a function of the canvas: two encodings of one canvas are the
/// same, level for level.
pub proof fn lemma_encoding_deterministic(cells: Seq<Seq<int>>, first: Seq<u8>, second: Seq<u8>)
    requires
        first == flattened(cells),
        second == flattened(cells),
    ensures
        first == second,
{
}

/// Two canvases with the same encoding are the same canvas.
pub proof fn lemma_encoding_injective(a: Seq<Seq<int>>, b: Seq<Seq<int>>)
    requires
        is_canvas(a),
        is_canvas(b),
        flattened(a) == flattened(b),
    ensures
        a == b,
{
    assert forall|x: int| 0 <= x < WIDTH implies #[trigger] a[x] =~= b[x] by {
        assert forall|y: int| 0 <= y < HEIGHT implies a[x][y] == b[x][y] by {
            lemma_encoding_layout(a, x, y);
            lemma_encoding_layout(b, x, y);
        }
    }
    assert(a =~= b);
}

/// The axis order is pinned: where a canvas differs from its transpose in some
/// cell, exchanging the axes changes the encoding.
pub proof fn lemma_transpose_changes_encoding(cells: Seq<Seq<int>>, x: int, y: int)
    requires
        is_canvas(cells),
        in_bounds(x, y),
        cells[x][y] != cells[y][x],
    ensures
        is_canvas(transposed(cells)),
        flattened(transposed(cells)) != flattened(cells),
        flattened(transposed(cells))[flat_index(x, y)] == flattened(cells)[flat_index(y, x)],
{
    lemma_encoding_layout(cells, x, y);
    lemma_encoding_layout(cells, y, x);
    lemma_encoding_layout(transposed(cells), x, y);
}

} // verus!
