//! The mathematical model of a generation: a rectangle of cells whose edges
//! are glued to the opposite edges.

use vstd::arithmetic::div_mod::lemma_fundamental_div_mod_converse;
use vstd::prelude::*;

verus! {

/// One generation: `cells` holds the rows one after another, so the cell in
/// row `r` and column `c` stands at `r * width + c`.
pub struct Grid {
    pub width: nat,
    pub height: nat,
    pub cells: Seq<bool>,
}

/// 1 for a live cell, 0 for a dead one.
pub open spec fn count(alive: bool) -> int {
    if alive {
        1
    } else {
        0
    }
}

/// The birth and survival rule: a live cell stays alive with two or three
/// live neighbours, a dead cell comes alive with exactly three.
pub open spec fn survives(alive: bool, live_neighbors: int) -> bool {
    if alive {
        live_neighbors == 2 || live_neighbors == 3
    } else {
        live_neighbors == 3
    }
}

/// Whether the cell at position `i` of a freshly seeded grid is alive.
pub open spec fn seeded(i: int) -> bool {
    i % 2 == 0 || i % 7 == 0
}

impl Grid {
    /// Both sides are at least one cell long and there is one cell per
    /// coordinate.
    pub open spec fn wf(self) -> bool {
        &&& self.width >= 1
        &&& self.height >= 1
        &&& self.cells.len() == self.width * self.height
    }

    /// Whether `(row, col)` names a cell of the grid.
    pub open spec fn contains(self, row: int, col: int) -> bool {
        0 <= row < self.height && 0 <= col < self.width
    }

    /// Position of `(row, col)` in `cells`.
    pub open spec fn index_of(self, row: int, col: int) -> int {
        row * self.width + col
    }

    /// State of the cell at `(row, col)`.
    pub open spec fn alive(self, row: int, col: int) -> bool {
        self.cells[self.index_of(row, col)]
    }

    /// State of the cell that lies `dr` rows and `dc` columns away from
    /// `(row, col)` on the torus.
    pub open spec fn neighbor(self, row: int, col: int, dr: int, dc: int) -> bool {
        self.alive(
            (row + dr + self.height) % (self.height as int),
            (col + dc + self.width) % (self.width as int),
        )
    }

    /// Number of live cells among the eight cells around `(row, col)`.
    pub open spec fn live_neighbors(self, row: int, col: int) -> int {
        count(self.neighbor(row, col, -1, -1)) + count(self.neighbor(row, col, -1, 0)) + count(
            self.neighbor(row, col, -1, 1),
        ) + count(self.neighbor(row, col, 0, -1)) + count(self.neighbor(row, col, 0, 1)) + count(
            self.neighbor(row, col, 1, -1),
        ) + count(self.neighbor(row, col, 1, 0)) + count(self.neighbor(row, col, 1, 1))
    }

    /// State of `(row, col)` one generation later.
    pub open spec fn next_alive(self, row: int, col: int) -> bool {
        survives(self.alive(row, col), self.live_neighbors(row, col))
    }

    /// The next generation: every cell is decided from this generation alone.
    pub open spec fn step(self) -> Grid {
        Grid {
            width: self.width,
            height: self.height,
            cells: Seq::new(
                self.cells.len(),
                |i: int| self.next_alive(i / (self.width as int), i % (self.width as int)),
            ),
        }
    }

    /// The generation reached after `n` steps.
    pub open spec fn steps(self, n: nat) -> Grid
        decreases n,
    {
        if n == 0 {
            self
        } else {
            self.step().steps((n - 1) as nat)
        }
    }

    /// The grid with the cell at `(row, col)` flipped.
    pub open spec fn toggled(self, row: int, col: int) -> Grid {
        Grid {
            width: self.width,
            height: self.height,
            cells: self.cells.update(self.index_of(row, col), !self.alive(row, col)),
        }
    }

    /// Whether `(row, col)` is one of `coordinates`.
    pub open spec fn names(coordinates: Seq<(u32, u32)>, row: int, col: int) -> bool {
        exists|k: int|
            0 <= k < coordinates.len() && (#[trigger] coordinates[k]).0 == row && coordinates[k].1
                == col
    }

    /// State of the cell at position `i` once the cells that `coordinates`
    /// names are alive.
    pub open spec fn stamped_cell(self, coordinates: Seq<(u32, u32)>, i: int) -> bool {
        self.cells[i] || Self::names(
            coordinates,
            i / (self.width as int),
            i % (self.width as int),
        )
    }

    /// The grid with every cell that `coordinates` names alive and every
    /// other cell as it is.
    pub open spec fn stamped(self, coordinates: Seq<(u32, u32)>) -> Grid {
        Grid {
            width: self.width,
            height: self.height,
            cells: Seq::new(self.cells.len(), |i: int| self.stamped_cell(coordinates, i)),
        }
    }

    /// The grid of the same size with every cell dead.
    pub open spec fn cleared(self) -> Grid {
        Grid {
            width: self.width,
            height: self.height,
            cells: Seq::new(self.cells.len(), |i: int| false),
        }
    }

    /// The grid of the given size as it is seeded at construction.
    pub open spec fn seed(width: nat, height: nat) -> Grid {
        Grid { width, height, cells: Seq::new(width * height, |i: int| seeded(i)) }
    }
}

/// The place `i`, which may lie up to `n` places outside `0..n`, brought back
/// onto the circle of `n` places.
pub open spec fn wrap(i: int, n: int) -> int {
    if i < 0 {
        i + n
    } else if i >= n {
        i - n
    } else {
        i
    }
}

/// Number of places among the eight around `(row, col)`, on a torus of
/// `height` rows and `width` columns, at which `cell` holds.
pub open spec fn live_around(
    cell: spec_fn(int, int) -> bool,
    height: int,
    width: int,
    row: int,
    col: int,
) -> int {
    let north = wrap(row - 1, height);
    let south = wrap(row + 1, height);
    let west = wrap(col - 1, width);
    let east = wrap(col + 1, width);
    count(cell(north, west)) + count(cell(north, col)) + count(cell(north, east)) + count(
        cell(row, west),
    ) + count(cell(row, east)) + count(cell(south, west)) + count(cell(south, col)) + count(
        cell(south, east),
    )
}

/// `row * width + col` stays below `width * height` for a cell of the grid.
pub proof fn lemma_index_in_range(width: int, height: int, row: int, col: int)
    requires
        0 <= row < height,
        0 <= col < width,
    ensures
        0 <= row * width + col < width * height,
{
    assert(row * width >= 0) by (nonlinear_arith)
        requires
            row >= 0,
            width >= 0,
    ;
    assert((row + 1) * width <= height * width) by (nonlinear_arith)
        requires
            row + 1 <= height,
            width >= 0,
    ;
    assert((row + 1) * width == row * width + width) by (nonlinear_arith);
    assert(height * width == width * height) by (nonlinear_arith);
}

/// Row and column are recovered from a position by division and remainder.
pub proof fn lemma_index_coordinates(width: int, row: int, col: int)
    requires
        0 <= col < width,
    ensures
        (row * width + col) / width == row,
        (row * width + col) % width == col,
{
    lemma_fundamental_div_mod_converse(row * width + col, width, row, col);
}

/// Every position below `width * height` is the position of exactly the
/// cell in row `i / width` and column `i % width`.
pub proof fn lemma_coordinates_index(width: int, height: int, i: int)
    requires
        0 < width,
        0 <= i < width * height,
    ensures
        0 <= i / width < height,
        0 <= i % width < width,
        (i / width) * width + i % width == i,
{
    vstd::arithmetic::div_mod::lemma_fundamental_div_mod(i, width);
    vstd::arithmetic::div_mod::lemma_mod_bound(i, width);
    let q = i / width;
    assert(width * q == q * width) by (nonlinear_arith);
    assert(q >= 0) by (nonlinear_arith)
        requires
            q * width + i % width == i,
            i >= 0,
            0 <= i % width < width,
    ;
    assert(q < height) by (nonlinear_arith)
        requires
            q * width + i % width == i,
            i < width * height,
            0 <= i % width < width,
    ;
}

/// One step to either side of a place of the circle, taken modulo its
/// length, is the wrapped place.
pub proof fn lemma_wrap(i: int, d: int, n: int)
    requires
        0 <= i < n,
        -1 <= d <= 1,
    ensures
        (i + d + n) % n == wrap(i + d, n),
        0 <= wrap(i + d, n) < n,
{
    if i + d < 0 {
        lemma_fundamental_div_mod_converse(i + d + n, n, 0, n - 1);
    } else if i + d >= n {
        lemma_fundamental_div_mod_converse(i + d + n, n, 2, 0);
    } else {
        lemma_fundamental_div_mod_converse(i + d + n, n, 1, i + d);
    }
}

impl Grid {
    /// Two well-formed grids of one size whose cells agree at every
    /// coordinate are the same grid.
    pub proof fn lemma_equal_by_cells(self, other: Grid)
        requires
            self.wf(),
            other.wf(),
            self.width == other.width,
            self.height == other.height,
            forall|row: int, col: int|
                self.contains(row, col) ==> self.alive(row, col) == other.alive(row, col),
        ensures
            self == other,
    {
        let w = self.width as int;
        assert forall|i: int| 0 <= i < self.cells.len() implies self.cells[i] == other.cells[i] by {
            lemma_coordinates_index(w, self.height as int, i);
            assert(self.contains(i / w, i % w));
            assert(self.alive(i / w, i % w) == self.cells[i]);
            assert(other.alive(i / w, i % w) == other.cells[i]);
        }
        assert(self.cells =~= other.cells);
    }

    /// A neighbour is the cell at the wrapped coordinates.
    pub proof fn lemma_neighbor(self, row: int, col: int, dr: int, dc: int)
        requires
            self.wf(),
            self.contains(row, col),
            -1 <= dr <= 1,
            -1 <= dc <= 1,
        ensures
            self.neighbor(row, col, dr, dc) == self.alive(
                wrap(row + dr, self.height as int),
                wrap(col + dc, self.width as int),
            ),
            self.contains(wrap(row + dr, self.height as int), wrap(col + dc, self.width as int)),
    {
        lemma_wrap(row, dr, self.height as int);
        lemma_wrap(col, dc, self.width as int);
    }

    /// Where `cell` says which cells of the grid are alive, the live
    /// neighbours of `(row, col)` are counted by `cell` at the wrapped
    /// coordinates around it.
    pub proof fn lemma_live_neighbors(self, cell: spec_fn(int, int) -> bool, row: int, col: int)
        requires
            self.wf(),
            self.contains(row, col),
            forall|r: int, c: int| self.contains(r, c) ==> #[trigger] self.alive(r, c) == cell(r, c),
        ensures
            self.live_neighbors(row, col) == live_around(
                cell,
                self.height as int,
                self.width as int,
                row,
                col,
            ),
    {
        self.lemma_neighbor(row, col, -1, -1);
        self.lemma_neighbor(row, col, -1, 0);
        self.lemma_neighbor(row, col, -1, 1);
        self.lemma_neighbor(row, col, 0, -1);
        self.lemma_neighbor(row, col, 0, 1);
        self.lemma_neighbor(row, col, 1, -1);
        self.lemma_neighbor(row, col, 1, 0);
        self.lemma_neighbor(row, col, 1, 1);
    }

    /// The next generation has the size of this one, and each of its cells
    /// follows the rule applied to this generation.
    pub proof fn lemma_step(self)
        requires
            self.wf(),
        ensures
            self.step().wf(),
            self.step().width == self.width,
            self.step().height == self.height,
            forall|row: int, col: int|
                self.contains(row, col) ==> #[trigger] self.step().alive(row, col)
                    == self.next_alive(row, col),
    {
        let w = self.width as int;
        assert forall|row: int, col: int| self.contains(row, col) implies #[trigger] self.step().alive(
            row,
            col,
        ) == self.next_alive(row, col) by {
            lemma_index_in_range(w, self.height as int, row, col);
            lemma_index_coordinates(w, row, col);
        }
    }

    /// Flipping a cell changes that cell and no other.
    pub proof fn lemma_toggled(self, row: int, col: int)
        requires
            self.wf(),
            self.contains(row, col),
        ensures
            self.toggled(row, col).wf(),
            self.toggled(row, col).alive(row, col) == !self.alive(row, col),
            forall|r: int, c: int|
                self.contains(r, c) && (r != row || c != col) ==> #[trigger] self.toggled(
                    row,
                    col,
                ).alive(r, c) == self.alive(r, c),
    {
        let w = self.width as int;
        lemma_index_in_range(w, self.height as int, row, col);
        assert forall|r: int, c: int|
            self.contains(r, c) && (r != row || c != col) implies #[trigger] self.toggled(
            row,
            col,
        ).alive(r, c) == self.alive(r, c) by {
            lemma_index_in_range(w, self.height as int, r, c);
            lemma_index_coordinates(w, r, c);
            lemma_index_coordinates(w, row, col);
        }
    }

    /// Flipping the same cell twice gives the grid back.
    pub proof fn lemma_toggle_twice(self, row: int, col: int)
        requires
            self.wf(),
            self.contains(row, col),
        ensures
            self.toggled(row, col).toggled(row, col) == self,
    {
        lemma_index_in_range(self.width as int, self.height as int, row, col);
        assert(self.toggled(row, col).toggled(row, col).cells =~= self.cells);
    }

    /// After clearing, no cell is alive.
    pub proof fn lemma_cleared(self)
        requires
            self.wf(),
        ensures
            self.cleared().wf(),
            forall|row: int, col: int|
                self.contains(row, col) ==> !#[trigger] self.cleared().alive(row, col),
    {
        assert forall|row: int, col: int| self.contains(row, col) implies !#[trigger] self.cleared().alive(
            row,
            col,
        ) by {
            lemma_index_in_range(self.width as int, self.height as int, row, col);
        }
    }

    /// After stamping, a cell is alive exactly if it was alive or is named.
    pub proof fn lemma_stamped(self, coordinates: Seq<(u32, u32)>)
        requires
            self.wf(),
        ensures
            self.stamped(coordinates).wf(),
            forall|row: int, col: int|
                self.contains(row, col) ==> #[trigger] self.stamped(coordinates).alive(row, col)
                    == (self.alive(row, col) || Self::names(coordinates, row, col)),
    {
        let w = self.width as int;
        assert forall|row: int, col: int| self.contains(row, col) implies #[trigger] self.stamped(
            coordinates,
        ).alive(row, col) == (self.alive(row, col) || Self::names(coordinates, row, col)) by {
            lemma_index_in_range(w, self.height as int, row, col);
            lemma_index_coordinates(w, row, col);
        }
    }

    /// A seeded grid is well formed, and its cell at `(row, col)` is alive
    /// exactly if its position is even or a multiple of seven.
    pub proof fn lemma_seed(width: nat, height: nat)
        requires
            width >= 1,
            height >= 1,
        ensures
            Self::seed(width, height).wf(),
            forall|row: int, col: int|
                0 <= row < height && 0 <= col < width ==> #[trigger] Self::seed(width, height).alive(
                    row,
                    col,
                ) == seeded(row * width + col),
    {
        assert forall|row: int, col: int| 0 <= row < height && 0 <= col < width implies #[trigger] Self::seed(
            width,
            height,
        ).alive(row, col) == seeded(row * width + col) by {
            lemma_index_in_range(width as int, height as int, row, col);
        }
    }
}

} // verus!
