//! The executable engine: a dense row-major buffer of cell states with
//! operations proved against the [`Grid`] model.

use crate::grid::{
    count, lemma_index_coordinates, lemma_index_in_range, lemma_wrap, seeded, survives, Grid,
};
use vstd::prelude::*;

verus! {

/// Side length used for both dimensions when none is asked for.
pub const DEFAULT_SIZE: u32 = 64;

/// A fixed-size toroidal grid of cells holding the current generation.
pub struct Universe {
    width: u32,
    height: u32,
    cells: Vec<bool>,
}

impl View for Universe {
    type V = Grid;

    closed spec fn view(&self) -> Grid {
        Grid { width: self.width as nat, height: self.height as nat, cells: self.cells@ }
    }
}

impl Universe {
    /// The invariant of the engine: its model is well formed and the number
    /// of cells is one that a vector can hold.
    pub open spec fn wf(&self) -> bool {
        &&& self@.wf()
        &&& self@.width <= u32::MAX
        &&& self@.height <= u32::MAX
        &&& self@.cells.len() <= isize::MAX
    }

    /// Creates a seeded universe of `dimensions`, given as `(width, height)`,
    /// or of the default size. A side of zero cells is raised to one. Each
    /// side and the number of cells have to be numbers that a vector can
    /// have as its length.
    pub fn new(dimensions: Option<(u32, u32)>) -> (universe: Universe)
        requires
            dimensions matches Some((w, h)) ==> w <= isize::MAX && h <= isize::MAX && w * h
                <= isize::MAX,
        ensures
            universe.wf(),
            universe@ == Grid::seed(
                Self::spec_dimensions(dimensions).0 as nat,
                Self::spec_dimensions(dimensions).1 as nat,
            ),
    {
        let (width, height) = match dimensions {
            Some((w, h)) => (Self::side(w), Self::side(h)),
            None => (DEFAULT_SIZE, DEFAULT_SIZE),
        };
        proof {
            if let Some((w, h)) = dimensions {
                if w == 0 || h == 0 {
                    assert(width * height <= isize::MAX) by (nonlinear_arith)
                        requires
                            width == 1 || height == 1,
                            0 <= width <= isize::MAX,
                            0 <= height <= isize::MAX,
                    ;
                }
            }
            assert(width * height >= 1) by (nonlinear_arith)
                requires
                    width >= 1,
                    height >= 1,
            ;
        }
        let cells = Self::seed_cells(width, height);
        Universe { width, height, cells }
    }

    /// A requested side length, raised to one cell where it is zero.
    pub open spec fn spec_side(requested: u32) -> u32 {
        if requested == 0 {
            1
        } else {
            requested
        }
    }

    /// The width and height that `new` gives a universe.
    pub open spec fn spec_dimensions(dimensions: Option<(u32, u32)>) -> (u32, u32) {
        match dimensions {
            Some((w, h)) => (Self::spec_side(w), Self::spec_side(h)),
            None => (DEFAULT_SIZE, DEFAULT_SIZE),
        }
    }

    /// Number of columns.
    pub fn width(&self) -> (width: u32)
        ensures
            width == self@.width,
    {
        self.width
    }

    /// Number of rows.
    pub fn height(&self) -> (height: u32)
        ensures
            height == self@.height,
    {
        self.height
    }

    /// Whether `(row, col)` names a cell of this universe.
    pub fn contains(&self, row: u32, col: u32) -> (inside: bool)
        ensures
            inside == self@.contains(row as int, col as int),
    {
        row < self.height && col < self.width
    }

    /// Position of the cell `(row, col)` in row-major order. No wraparound is
    /// applied: the coordinates have to name a cell.
    pub fn index_of(&self, row: u32, col: u32) -> (index: usize)
        requires
            self.wf(),
            self@.contains(row as int, col as int),
        ensures
            index == self@.index_of(row as int, col as int),
            index < self@.cells.len(),
    {
        proof {
            lemma_index_in_range(self.width as int, self.height as int, row as int, col as int);
        }
        row as usize * self.width as usize + col as usize
    }

    /// Whether the cell at `(row, col)` is alive.
    pub fn is_alive(&self, row: u32, col: u32) -> (alive: bool)
        requires
            self.wf(),
            self@.contains(row as int, col as int),
        ensures
            alive == self@.alive(row as int, col as int),
    {
        let index = self.index_of(row, col);
        self.cells[index]
    }

    /// Number of live cells among the eight cells around `(row, col)`, edges
    /// wrapping to the opposite edge.
    pub fn live_neighbors(&self, row: u32, col: u32) -> (live: u8)
        requires
            self.wf(),
            self@.contains(row as int, col as int),
        ensures
            live == self@.live_neighbors(row as int, col as int),
            live <= 8,
    {
        let north = Self::previous(row, self.height);
        let south = Self::following(row, self.height);
        let west = Self::previous(col, self.width);
        let east = Self::following(col, self.width);
        proof {
            lemma_wrap(row as int, 0, self.height as int);
            lemma_wrap(col as int, 0, self.width as int);
        }
        let above: u8 = self.census(north, west) + self.census(north, col) + self.census(
            north,
            east,
        );
        let beside: u8 = self.census(row, west) + self.census(row, east);
        let below: u8 = self.census(south, west) + self.census(south, col) + self.census(
            south,
            east,
        );
        above + beside + below
    }

    /// Replaces the current generation by the next one. Every cell is decided
    /// from the current generation: the new cells are written to a buffer of
    /// their own, which takes the place of the old one at the end.
    pub fn advance(&mut self)
        requires
            old(self).wf(),
        ensures
            final(self).wf(),
            final(self)@ == old(self)@.step(),
    {
        let ghost before = self@;
        let mut next: Vec<bool> = Vec::with_capacity(self.cells.len());
        let mut row: u32 = 0;
        while row < self.height
            invariant
                self.wf(),
                self@ == before,
                row <= self.height,
                next@.len() == row * self.width,
                forall|k: int|
                    0 <= k < next@.len() ==> next@[k] == before.next_alive(
                        k / (before.width as int),
                        k % (before.width as int),
                    ),
            decreases self.height - row,
        {
            let mut col: u32 = 0;
            while col < self.width
                invariant
                    self.wf(),
                    self@ == before,
                    row < self.height,
                    col <= self.width,
                    next@.len() == row * self.width + col,
                    forall|k: int|
                        0 <= k < next@.len() ==> next@[k] == before.next_alive(
                            k / (before.width as int),
                            k % (before.width as int),
                        ),
                decreases self.width - col,
            {
                let live = self.live_neighbors(row, col);
                let alive = self.is_alive(row, col);
                proof {
                    lemma_index_in_range(
                        self.width as int,
                        self.height as int,
                        row as int,
                        col as int,
                    );
                    lemma_index_coordinates(self.width as int, row as int, col as int);
                }
                next.push(Self::rule(alive, live));
                col += 1;
            }
            assert((row + 1) * self.width == row * self.width + self.width) by (nonlinear_arith);
            row += 1;
        }
        assert(self.height * self.width == self.width * self.height) by (nonlinear_arith);
        assert(next@ =~= before.step().cells);
        self.cells = next;
    }

    /// Flips the cell at `(row, col)`.
    pub fn toggle(&mut self, row: u32, col: u32)
        requires
            old(self).wf(),
            old(self)@.contains(row as int, col as int),
        ensures
            final(self).wf(),
            final(self)@ == old(self)@.toggled(row as int, col as int),
    {
        let index = self.index_of(row, col);
        let alive = self.cells[index];
        self.cells.set(index, !alive);
    }

    /// Marks every cell that `coordinates` names, as `(row, col)`, alive and
    /// leaves the others as they are.
    pub fn set_alive(&mut self, coordinates: &[(u32, u32)])
        requires
            old(self).wf(),
            forall|k: int|
                0 <= k < coordinates@.len() ==> old(self)@.contains(
                    (#[trigger] coordinates@[k]).0 as int,
                    coordinates@[k].1 as int,
                ),
        ensures
            final(self).wf(),
            final(self)@ == old(self)@.stamped(coordinates@),
    {
        let ghost before = self@;
        let ghost width = self.width as int;
        let mut n: usize = 0;
        while n < coordinates.len()
            invariant
                self.wf(),
                n <= coordinates@.len(),
                width == before.width,
                before.wf(),
                self@.width == before.width,
                self@.height == before.height,
                self@.cells.len() == before.cells.len(),
                forall|k: int|
                    0 <= k < coordinates@.len() ==> before.contains(
                        (#[trigger] coordinates@[k]).0 as int,
                        coordinates@[k].1 as int,
                    ),
                forall|i: int|
                    0 <= i < before.cells.len() ==> self@.cells[i] == before.stamped_cell(
                        coordinates@.take(n as int),
                        i,
                    ),
            decreases coordinates@.len() - n,
        {
            let (row, col) = coordinates[n];
            let index = self.index_of(row, col);
            let ghost earlier = coordinates@.take(n as int);
            let ghost later = coordinates@.take(n + 1);
            proof {
                lemma_index_coordinates(width, row as int, col as int);
                assert(later[n as int] == coordinates@[n as int]);
                assert forall|i: int| 0 <= i < before.cells.len() implies (
                #[trigger] before.stamped_cell(later, i)) == (before.stamped_cell(earlier, i) || i
                    == index) by {
                    if Grid::names(earlier, i / width, i % width) {
                        let k = choose|k: int|
                            0 <= k < earlier.len() && (#[trigger] earlier[k]).0 == i / width
                                && earlier[k].1 == i % width;
                        assert(later[k] == earlier[k]);
                    }
                    if Grid::names(later, i / width, i % width) {
                        let k = choose|k: int|
                            0 <= k < later.len() && (#[trigger] later[k]).0 == i / width
                                && later[k].1 == i % width;
                        if k < n {
                            assert(earlier[k] == later[k]);
                        } else {
                            vstd::arithmetic::div_mod::lemma_fundamental_div_mod(i, width);
                            assert(i == width * (i / width) + i % width);
                            assert(width * (i / width) == (i / width) * width)
                                by (nonlinear_arith);
                        }
                    }
                }
            }
            self.cells.set(index, true);
            n += 1;
        }
        assert(coordinates@.take(n as int) =~= coordinates@);
        assert(self@.cells =~= before.stamped(coordinates@).cells);
    }

    /// Makes every cell dead. The dimensions stay as they are.
    pub fn clear(&mut self)
        requires
            old(self).wf(),
        ensures
            final(self).wf(),
            final(self)@ == old(self)@.cleared(),
    {
        let ghost before = self@;
        let mut i: usize = 0;
        while i < self.cells.len()
            invariant
                self.wf(),
                self@.width == before.width,
                self@.height == before.height,
                self@.cells.len() == before.cells.len(),
                i <= self@.cells.len(),
                forall|k: int| 0 <= k < i ==> !self@.cells[k],
            decreases self@.cells.len() - i,
        {
            self.cells.set(i, false);
            i += 1;
        }
        assert(self@.cells =~= before.cleared().cells);
    }

    /// Puts the universe back into the state in which `new` made it: seeded,
    /// with the same dimensions.
    pub fn reset(&mut self)
        requires
            old(self).wf(),
        ensures
            final(self).wf(),
            final(self)@ == Grid::seed(old(self)@.width, old(self)@.height),
    {
        self.cells = Self::seed_cells(self.width, self.height);
    }

    /// A requested side length, raised to one cell where it is zero.
    fn side(requested: u32) -> (side: u32)
        ensures
            side == Self::spec_side(requested),
    {
        if requested == 0 {
            1
        } else {
            requested
        }
    }

    /// The cells of a freshly seeded grid of the given size.
    fn seed_cells(width: u32, height: u32) -> (cells: Vec<bool>)
        requires
            width * height <= isize::MAX,
        ensures
            cells@ == Grid::seed(width as nat, height as nat).cells,
    {
        proof {
            assert(width * height >= 0) by (nonlinear_arith)
                requires
                    width >= 0,
                    height >= 0,
            ;
        }
        let size: usize = width as usize * height as usize;
        let mut cells: Vec<bool> = Vec::with_capacity(size);
        let mut i: usize = 0;
        while i < size
            invariant
                i <= size,
                cells@.len() == i,
                forall|k: int| 0 <= k < i ==> cells@[k] == seeded(k),
            decreases size - i,
        {
            cells.push(i % 2 == 0 || i % 7 == 0);
            i += 1;
        }
        assert(cells@ =~= Grid::seed(width as nat, height as nat).cells);
        cells
    }

    /// The place before `i` on a circle of `n` places.
    fn previous(i: u32, n: u32) -> (j: u32)
        requires
            i < n,
        ensures
            j == (i - 1 + n) % (n as int),
            j < n,
    {
        proof {
            lemma_wrap(i as int, -1, n as int);
        }
        if i == 0 {
            n - 1
        } else {
            i - 1
        }
    }

    /// The place after `i` on a circle of `n` places.
    fn following(i: u32, n: u32) -> (j: u32)
        requires
            i < n,
        ensures
            j == (i + 1 + n) % (n as int),
            j < n,
    {
        proof {
            lemma_wrap(i as int, 1, n as int);
        }
        if i == n - 1 {
            0
        } else {
            i + 1
        }
    }

    /// The cell at `(row, col)` as a number: 1 where it is alive, else 0.
    fn census(&self, row: u32, col: u32) -> (n: u8)
        requires
            self.wf(),
            self@.contains(row as int, col as int),
        ensures
            n == count(self@.alive(row as int, col as int)),
    {
        if self.is_alive(row, col) {
            1
        } else {
            0
        }
    }

    /// The rule applied to one cell.
    fn rule(alive: bool, live: u8) -> (next: bool)
        ensures
            next == survives(alive, live as int),
    {
        if alive {
            live == 2 || live == 3
        } else {
            live == 3
        }
    }
}

} // verus!
