//! Well-known patterns and what the transition does to them, proved for
//! every position on every torus that is large enough to hold them.

use crate::grid::{count, live_around, survives, wrap, Grid};
use vstd::prelude::*;

verus! {

/// Whether `(r, c)` is the one cell `(row, col)`.
pub open spec fn lone_cell(row: int, col: int, r: int, c: int) -> bool {
    r == row && c == col
}

/// Whether `(r, c)` is one of the four cells of the square whose upper left
/// corner is `(row, col)`.
pub open spec fn block_cell(height: int, width: int, row: int, col: int, r: int, c: int) -> bool {
    (r == row || r == wrap(row + 1, height)) && (c == col || c == wrap(col + 1, width))
}

/// Whether `(r, c)` is one of the three cells side by side whose middle is
/// `(row, col)`.
pub open spec fn row_cell(width: int, row: int, col: int, r: int, c: int) -> bool {
    r == row && (c == wrap(col - 1, width) || c == col || c == wrap(col + 1, width))
}

/// Whether `(r, c)` is one of the three cells above one another whose middle
/// is `(row, col)`.
pub open spec fn column_cell(height: int, row: int, col: int, r: int, c: int) -> bool {
    c == col && (r == wrap(row - 1, height) || r == row || r == wrap(row + 1, height))
}

/// Whether `cell` says of every coordinate of `g` whether it is alive.
pub open spec fn shows(g: Grid, cell: spec_fn(int, int) -> bool) -> bool {
    &&& g.wf()
    &&& forall|r: int, c: int| g.contains(r, c) ==> #[trigger] g.alive(r, c) == cell(r, c)
}

/// No cell of `g` is alive.
pub open spec fn is_empty(g: Grid) -> bool {
    shows(g, |r: int, c: int| false)
}

/// The only live cell of `g` is `(row, col)`.
pub open spec fn is_lone_cell(g: Grid, row: int, col: int) -> bool {
    g.contains(row, col) && shows(g, |r: int, c: int| lone_cell(row, col, r, c))
}

/// The live cells of `g` are exactly the four cells of the square whose
/// upper left corner is `(row, col)`.
pub open spec fn is_block(g: Grid, row: int, col: int) -> bool {
    g.contains(row, col) && shows(
        g,
        |r: int, c: int| block_cell(g.height as int, g.width as int, row, col, r, c),
    )
}

/// The live cells of `g` are exactly three cells side by side, the middle
/// one at `(row, col)`.
pub open spec fn is_row_of_three(g: Grid, row: int, col: int) -> bool {
    g.contains(row, col) && shows(g, |r: int, c: int| row_cell(g.width as int, row, col, r, c))
}

/// The live cells of `g` are exactly three cells above one another, the
/// middle one at `(row, col)`.
pub open spec fn is_column_of_three(g: Grid, row: int, col: int) -> bool {
    g.contains(row, col) && shows(
        g,
        |r: int, c: int| column_cell(g.height as int, row, col, r, c),
    )
}

/// If `next` says which cells the rule leaves alive, given that `cell` says
/// which are alive now, then `next` shows the next generation.
pub proof fn lemma_step_shows(
    g: Grid,
    cell: spec_fn(int, int) -> bool,
    next: spec_fn(int, int) -> bool,
)
    requires
        shows(g, cell),
        forall|r: int, c: int|
            g.contains(r, c) ==> #[trigger] next(r, c) == survives(
                cell(r, c),
                live_around(cell, g.height as int, g.width as int, r, c),
            ),
    ensures
        shows(g.step(), next),
{
    g.lemma_step();
    assert forall|r: int, c: int| g.contains(r, c) implies #[trigger] g.step().alive(r, c) == next(
        r,
        c,
    ) by {
        g.lemma_live_neighbors(cell, r, c);
    }
}

/// Edges wrap: the cell in the last row and last column is the upper left
/// neighbour of the cell at `(0, 0)`, so where it is alive it is counted.
pub proof fn lemma_corner_is_neighbor(g: Grid)
    requires
        g.wf(),
    ensures
        g.neighbor(0, 0, -1, -1) == g.alive(g.height - 1, g.width - 1),
        g.alive(g.height - 1, g.width - 1) ==> g.live_neighbors(0, 0) >= 1,
{
    g.lemma_neighbor(0, 0, -1, -1);
}

/// A cell that is alone dies, and nothing is born beside it, on a torus of
/// at least three rows and three columns.
pub proof fn lemma_lone_cell_dies(g: Grid, row: int, col: int)
    requires
        is_lone_cell(g, row, col),
        g.width >= 3,
        g.height >= 3,
    ensures
        is_empty(g.step()),
{
    let h = g.height as int;
    let w = g.width as int;
    let cell = |r: int, c: int| lone_cell(row, col, r, c);
    let next = |r: int, c: int| false;
    assert forall|r: int, c: int| g.contains(r, c) implies #[trigger] next(r, c) == survives(
        cell(r, c),
        live_around(cell, h, w, r, c),
    ) by {
        lemma_lone_cell_around(h, w, row, col, r, c);
    }
    lemma_step_shows(g, cell, next);
}

/// Around a lone cell there is no live cell; around any other cell there is
/// at most one.
proof fn lemma_lone_cell_around(h: int, w: int, row: int, col: int, r: int, c: int)
    requires
        h >= 3,
        w >= 3,
        0 <= row < h,
        0 <= col < w,
        0 <= r < h,
        0 <= c < w,
    ensures
        lone_cell(row, col, r, c) ==> live_around(
            |x: int, y: int| lone_cell(row, col, x, y),
            h,
            w,
            r,
            c,
        ) == 0,
        live_around(|x: int, y: int| lone_cell(row, col, x, y), h, w, r, c) <= 1,
{
    let rows = count(wrap(r - 1, h) == row) + count(r == row) + count(wrap(r + 1, h) == row);
    let cols = count(wrap(c - 1, w) == col) + count(c == col) + count(wrap(c + 1, w) == col);
    assert(rows <= 1);
    assert(cols <= 1);
}

/// Around a cell of a block lie the three other cells of the block; around
/// any other cell lie at most two of them.
proof fn lemma_block_around(h: int, w: int, row: int, col: int, r: int, c: int)
    requires
        h >= 4,
        w >= 4,
        0 <= row < h,
        0 <= col < w,
        0 <= r < h,
        0 <= c < w,
    ensures
        block_cell(h, w, row, col, r, c) ==> live_around(
            |x: int, y: int| block_cell(h, w, row, col, x, y),
            h,
            w,
            r,
            c,
        ) == 3,
        !block_cell(h, w, row, col, r, c) ==> live_around(
            |x: int, y: int| block_cell(h, w, row, col, x, y),
            h,
            w,
            r,
            c,
        ) <= 2,
{
    let in_rows = |x: int| x == row || x == wrap(row + 1, h);
    let in_cols = |y: int| y == col || y == wrap(col + 1, w);
    let beside_rows = count(in_rows(wrap(r - 1, h))) + count(in_rows(wrap(r + 1, h)));
    let beside_cols = count(in_cols(wrap(c - 1, w))) + count(in_cols(wrap(c + 1, w)));
    assert(in_rows(r) ==> beside_rows == 1);
    assert(!in_rows(r) ==> beside_rows <= 1);
    assert(in_cols(c) ==> beside_cols == 1);
    assert(!in_cols(c) ==> beside_cols <= 1);
}

/// A block is a still life: on a torus of at least four rows and four
/// columns the next generation is the same block.
pub proof fn lemma_block_is_still(g: Grid, row: int, col: int)
    requires
        is_block(g, row, col),
        g.width >= 4,
        g.height >= 4,
    ensures
        g.step() == g,
{
    let h = g.height as int;
    let w = g.width as int;
    let cell = |r: int, c: int| block_cell(h, w, row, col, r, c);
    assert forall|r: int, c: int| g.contains(r, c) implies #[trigger] cell(r, c) == survives(
        cell(r, c),
        live_around(cell, h, w, r, c),
    ) by {
        lemma_block_around(h, w, row, col, r, c);
    }
    lemma_step_shows(g, cell, cell);
    g.step().lemma_equal_by_cells(g);
}

/// A block stays as it is through any number of generations.
pub proof fn lemma_block_stays(g: Grid, row: int, col: int, n: nat)
    requires
        is_block(g, row, col),
        g.width >= 4,
        g.height >= 4,
    ensures
        g.steps(n) == g,
    decreases n,
{
    if n > 0 {
        lemma_block_is_still(g, row, col);
        lemma_block_stays(g, row, col, (n - 1) as nat);
    }
}

/// The rule turns three cells side by side into three cells above one
/// another: a cell lives on or is born exactly if it is in the column.
proof fn lemma_row_around(h: int, w: int, row: int, col: int, r: int, c: int)
    requires
        h >= 3,
        w >= 4,
        0 <= row < h,
        0 <= col < w,
        0 <= r < h,
        0 <= c < w,
    ensures
        survives(
            row_cell(w, row, col, r, c),
            live_around(|x: int, y: int| row_cell(w, row, col, x, y), h, w, r, c),
        ) == column_cell(h, row, col, r, c),
{
    let in_cols = |y: int| y == wrap(col - 1, w) || y == col || y == wrap(col + 1, w);
    let beside_rows = count(wrap(r - 1, h) == row) + count(wrap(r + 1, h) == row);
    let beside_cols = count(in_cols(wrap(c - 1, w))) + count(in_cols(wrap(c + 1, w)));
    let across = beside_cols + count(in_cols(c));
    assert(r == row ==> beside_rows == 0);
    assert(beside_rows <= 1);
    assert(beside_rows == 1 <==> r == wrap(row - 1, h) || r == wrap(row + 1, h));
    assert(across == 3 <==> c == col);
    assert(c == col ==> beside_cols == 2);
    assert(in_cols(c) && c != col ==> beside_cols == 1);
}

/// The rule turns three cells above one another into three cells side by
/// side: a cell lives on or is born exactly if it is in the row.
proof fn lemma_column_around(h: int, w: int, row: int, col: int, r: int, c: int)
    requires
        h >= 4,
        w >= 3,
        0 <= row < h,
        0 <= col < w,
        0 <= r < h,
        0 <= c < w,
    ensures
        survives(
            column_cell(h, row, col, r, c),
            live_around(|x: int, y: int| column_cell(h, row, col, x, y), h, w, r, c),
        ) == row_cell(w, row, col, r, c),
{
    let in_rows = |x: int| x == wrap(row - 1, h) || x == row || x == wrap(row + 1, h);
    let beside_cols = count(wrap(c - 1, w) == col) + count(wrap(c + 1, w) == col);
    let beside_rows = count(in_rows(wrap(r - 1, h))) + count(in_rows(wrap(r + 1, h)));
    let along = beside_rows + count(in_rows(r));
    assert(c == col ==> beside_cols == 0);
    assert(beside_cols <= 1);
    assert(beside_cols == 1 <==> c == wrap(col - 1, w) || c == wrap(col + 1, w));
    assert(along == 3 <==> r == row);
    assert(r == row ==> beside_rows == 2);
    assert(in_rows(r) && r != row ==> beside_rows == 1);
}

/// A row of three live cells becomes the column of three through its middle,
/// on a torus of at least four columns and three rows.
pub proof fn lemma_row_becomes_column(g: Grid, row: int, col: int)
    requires
        is_row_of_three(g, row, col),
        g.width >= 4,
        g.height >= 3,
    ensures
        is_column_of_three(g.step(), row, col),
{
    let h = g.height as int;
    let w = g.width as int;
    let cell = |r: int, c: int| row_cell(w, row, col, r, c);
    let next = |r: int, c: int| column_cell(h, row, col, r, c);
    assert forall|r: int, c: int| g.contains(r, c) implies #[trigger] next(r, c) == survives(
        cell(r, c),
        live_around(cell, h, w, r, c),
    ) by {
        lemma_row_around(h, w, row, col, r, c);
    }
    lemma_step_shows(g, cell, next);
}

/// A column of three live cells becomes the row of three through its middle,
/// on a torus of at least four rows and three columns.
pub proof fn lemma_column_becomes_row(g: Grid, row: int, col: int)
    requires
        is_column_of_three(g, row, col),
        g.height >= 4,
        g.width >= 3,
    ensures
        is_row_of_three(g.step(), row, col),
{
    let h = g.height as int;
    let w = g.width as int;
    let cell = |r: int, c: int| column_cell(h, row, col, r, c);
    let next = |r: int, c: int| row_cell(w, row, col, r, c);
    assert forall|r: int, c: int| g.contains(r, c) implies #[trigger] next(r, c) == survives(
        cell(r, c),
        live_around(cell, h, w, r, c),
    ) by {
        lemma_column_around(h, w, row, col, r, c);
    }
    lemma_step_shows(g, cell, next);
}

/// A row of three live cells oscillates with period two: it is a column of
/// three after one generation and the same row again after two, on a torus
/// of at least four rows and four columns.
pub proof fn lemma_blinker_period_two(g: Grid, row: int, col: int)
    requires
        is_row_of_three(g, row, col),
        g.width >= 4,
        g.height >= 4,
    ensures
        is_column_of_three(g.steps(1), row, col),
        g.steps(2) == g,
{
    reveal_with_fuel(Grid::steps, 3);
    lemma_row_becomes_column(g, row, col);
    lemma_column_becomes_row(g.step(), row, col);
    g.step().step().lemma_equal_by_cells(g);
}

/// Whether `(r, c)` is one of the five cells of a glider heading down and to
/// the right, in the square of three rows and columns whose upper left
/// corner is `(row, col)`.
pub open spec fn glider_cell(height: int, width: int, row: int, col: int, r: int, c: int) -> bool {
    ||| r == row && c == wrap(col + 1, width)
    ||| r == wrap(row + 1, height) && c == wrap(col + 2, width)
    ||| r == wrap(row + 2, height) && (c == col || c == wrap(col + 1, width) || c == wrap(
        col + 2,
        width,
    ))
}

/// Whether `(r, c)` is one of the five cells that the glider in the square
/// at `(row, col)` leaves one generation later.
pub open spec fn next_glider_cell(height: int, width: int, row: int, col: int, r: int, c: int) -> bool {
    ||| r == wrap(row + 1, height) && (c == col || c == wrap(col + 2, width))
    ||| r == wrap(row + 2, height) && (c == wrap(col + 1, width) || c == wrap(col + 2, width))
    ||| r == wrap(row + 3, height) && c == wrap(col + 1, width)
}

/// The live cells of `g` are exactly the five cells of a glider heading down
/// and to the right, in the square whose upper left corner is `(row, col)`.
pub open spec fn is_glider(g: Grid, row: int, col: int) -> bool {
    g.contains(row, col) && shows(
        g,
        |r: int, c: int| glider_cell(g.height as int, g.width as int, row, col, r, c),
    )
}

/// The live cells of `g` are exactly the five cells that the glider in the
/// square at `(row, col)` leaves one generation later.
pub open spec fn is_next_glider(g: Grid, row: int, col: int) -> bool {
    g.contains(row, col) && shows(
        g,
        |r: int, c: int| next_glider_cell(g.height as int, g.width as int, row, col, r, c),
    )
}

/// The rule applied to one cell of a grid that holds a glider.
proof fn lemma_glider_around(h: int, w: int, row: int, col: int, r: int, c: int)
    requires
        h >= 5,
        w >= 5,
        0 <= row < h,
        0 <= col < w,
        0 <= r < h,
        0 <= c < w,
    ensures
        survives(
            glider_cell(h, w, row, col, r, c),
            live_around(|x: int, y: int| glider_cell(h, w, row, col, x, y), h, w, r, c),
        ) == next_glider_cell(h, w, row, col, r, c),
{
}

/// One generation moves a glider into its next phase, on a torus of at least
/// five rows and five columns.
pub proof fn lemma_glider_step(g: Grid, row: int, col: int)
    requires
        is_glider(g, row, col),
        g.width >= 5,
        g.height >= 5,
    ensures
        is_next_glider(g.step(), row, col),
{
    let h = g.height as int;
    let w = g.width as int;
    let cell = |r: int, c: int| glider_cell(h, w, row, col, r, c);
    let next = |r: int, c: int| next_glider_cell(h, w, row, col, r, c);
    assert forall|r: int, c: int| g.contains(r, c) implies #[trigger] next(r, c) == survives(
        cell(r, c),
        live_around(cell, h, w, r, c),
    ) by {
        lemma_glider_around(h, w, row, col, r, c);
    }
    lemma_step_shows(g, cell, next);
}

} // verus!
