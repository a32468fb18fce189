//! What is drawn where: the geometry of the canvas in whole pixels and the
//! colour of each cell. Drawing itself is left to the caller.

use crate::context::Context;
use crate::universe::Universe;
use vstd::prelude::*;

verus! {

/// Side of a cell in pixels. Between two cells lies a line one pixel wide.
pub const CELL_SIZE: u32 = 10;

/// Colour of the lines between the cells.
pub const GRID_COLOR: &'static str = "#CCCCCC";

/// Colour of a dead cell.
pub const DEAD_COLOR: &'static str = "#FFFFFF";

/// Colour of a live cell where random colours are switched off.
pub const DEFAULT_COLOR: &'static str = "#000000";

/// A straight line from `(x0, y0)` to `(x1, y1)`, in pixels.
#[derive(Debug, Clone, Copy, PartialEq, Eq, Structural)]
pub struct Line {
    pub x0: u64,
    pub y0: u64,
    pub x1: u64,
    pub y1: u64,
}

/// A square of `CELL_SIZE` pixels with its upper left corner at `(x, y)`,
/// filled with the colour `style`.
#[derive(Debug)]
pub struct Fill {
    pub x: u64,
    pub y: u64,
    pub style: String,
}

/// The pixel at which the line or cell number `i` of a row or column begins.
pub open spec fn spec_offset(i: int) -> int {
    i * (CELL_SIZE + 1) + 1
}

/// The row or column under a pixel that lies `distance` pixels from the
/// upper left corner of the canvas.
pub open spec fn spec_cell_under(distance: int) -> int {
    if distance < 0 {
        0
    } else {
        distance / (CELL_SIZE + 1)
    }
}

/// One of the digits `0` to `9` and `a` to `f`.
pub open spec fn is_hex_digit(c: char) -> bool {
    ('0' as u32 <= c as u32 && c as u32 <= '9' as u32) || ('a' as u32 <= c as u32 && c as u32
        <= 'f' as u32)
}

/// A colour in the form `#rrggbb`.
pub open spec fn is_hex_color(text: Seq<char>) -> bool {
    &&& text.len() == 7
    &&& text[0] == '#'
    &&& forall|i: int| 1 <= i < 7 ==> is_hex_digit(#[trigger] text[i])
}

/// The colour of a cell: a dead cell has `DEAD_COLOR`; a live one has
/// `random` where random colours are on and `DEFAULT_COLOR` where not.
pub open spec fn spec_fill_style(alive: bool, color: bool, random: Seq<char>) -> Seq<char> {
    if !alive {
        DEAD_COLOR@
    } else if color {
        random
    } else {
        DEFAULT_COLOR@
    }
}

/// Whether `fill` is what is drawn for a cell in row `row` and column `col`
/// of that state: the place is fixed, and the colour is the one of the cell
/// for some random colour in the form `#rrggbb`.
pub open spec fn is_fill_of(fill: Fill, row: int, col: int, alive: bool, color: bool) -> bool {
    &&& fill.x == spec_offset(col)
    &&& fill.y == spec_offset(row)
    &&& exists|random: Seq<char>|
        is_hex_color(random) && fill.style@ == #[trigger] spec_fill_style(alive, color, random)
}

/// For every pixel of the square that is filled for cell number `i`, and for
/// the pixel of the line before it, `cell_under` says `i`.
pub proof fn lemma_cell_under_offset(i: int, k: int)
    requires
        0 <= i,
        -1 <= k < CELL_SIZE,
    ensures
        spec_cell_under(spec_offset(i) + k) == i,
{
    vstd::arithmetic::div_mod::lemma_fundamental_div_mod_converse(
        spec_offset(i) + k,
        CELL_SIZE + 1,
        i,
        k + 1,
    );
}

/// A colour picked at random by `random_color::RandomColor::new().to_hex()`,
/// which formats three bytes as `#` and six lower-case hexadecimal digits;
/// that form is all that is claimed, whichever colour comes.
#[verifier::external_body]
fn random_hex() -> (hex: String)
    ensures
        is_hex_color(hex@),
{
    random_color::RandomColor::new().to_hex()
}

/// The pixel at which the line or cell number `i` of a row or column begins.
pub fn offset(i: u32) -> (pixels: u64)
    ensures
        pixels == spec_offset(i as int),
{
    let step: u64 = CELL_SIZE as u64 + 1;
    assert(i * step <= u32::MAX * 11) by (nonlinear_arith)
        requires
            step == 11,
            i <= u32::MAX,
    ;
    i as u64 * step + 1
}

/// Side of the canvas, in pixels, that shows `cells` cells and the lines
/// around them; the largest `u32` where that many pixels have no `u32`.
pub fn canvas_size(cells: u32) -> (pixels: u32)
    ensures
        pixels == if spec_offset(cells as int) <= u32::MAX {
            spec_offset(cells as int)
        } else {
            u32::MAX as int
        },
{
    let wanted = offset(cells);
    if wanted <= u32::MAX as u64 {
        wanted as u32
    } else {
        u32::MAX
    }
}

/// The row or column under a pixel that lies `distance` pixels from the
/// upper left corner of the canvas: every `CELL_SIZE + 1` pixels begin a new
/// one, and what lies before the canvas counts as the first.
pub fn cell_under(distance: i32) -> (cell: u32)
    ensures
        cell == spec_cell_under(distance as int),
{
    if distance < 0 {
        0
    } else {
        let step: u32 = CELL_SIZE + 1;
        assert(step == 11);
        distance as u32 / step
    }
}

/// The colour of a cell: a dead cell has `DEAD_COLOR`; a live one has
/// `random` where random colours are on and `DEFAULT_COLOR` where not.
pub fn fill_style<'a>(alive: bool, color: bool, random: &'a str) -> (style: &'a str)
    ensures
        style@ == spec_fill_style(alive, color, random@),
{
    if !alive {
        DEAD_COLOR
    } else if color {
        random
    } else {
        DEFAULT_COLOR
    }
}

/// The lines of the grid: first the `width + 1` upright ones from left to
/// right, then the `height + 1` level ones from top to bottom, each across
/// the whole canvas.
pub fn grid_lines(universe: &Universe) -> (lines: Vec<Line>)
    requires
        universe.wf(),
    ensures
        lines@.len() == universe@.width + universe@.height + 2,
        forall|i: int|
            0 <= i <= universe@.width ==> #[trigger] lines@[i] == (Line {
                x0: spec_offset(i) as u64,
                y0: 0,
                x1: spec_offset(i) as u64,
                y1: spec_offset(universe@.height as int) as u64,
            }),
        forall|j: int|
            0 <= j <= universe@.height ==> #[trigger] lines@[universe@.width + 1 + j] == (Line {
                x0: 0,
                y0: spec_offset(j) as u64,
                x1: spec_offset(universe@.width as int) as u64,
                y1: spec_offset(j) as u64,
            }),
{
    let width = universe.width();
    let height = universe.height();
    let right = offset(width);
    let bottom = offset(height);
    let mut lines: Vec<Line> = Vec::new();
    let mut i: u64 = 0;
    while i <= width as u64
        invariant
            i <= width + 1,
            bottom == spec_offset(height as int),
            lines@.len() == i,
            forall|k: int|
                0 <= k < i ==> #[trigger] lines@[k] == (Line {
                    x0: spec_offset(k) as u64,
                    y0: 0,
                    x1: spec_offset(k) as u64,
                    y1: bottom,
                }),
        decreases width + 1 - i,
    {
        let x = offset(i as u32);
        lines.push(Line { x0: x, y0: 0, x1: x, y1: bottom });
        i += 1;
    }
    let mut j: u64 = 0;
    while j <= height as u64
        invariant
            j <= height + 1,
            right == spec_offset(width as int),
            bottom == spec_offset(height as int),
            lines@.len() == width + 1 + j,
            forall|k: int|
                0 <= k <= width ==> #[trigger] lines@[k] == (Line {
                    x0: spec_offset(k) as u64,
                    y0: 0,
                    x1: spec_offset(k) as u64,
                    y1: bottom,
                }),
            forall|k: int|
                0 <= k < j ==> #[trigger] lines@[width + 1 + k] == (Line {
                    x0: 0,
                    y0: spec_offset(k) as u64,
                    x1: right,
                    y1: spec_offset(k) as u64,
                }),
        decreases height + 1 - j,
    {
        let y = offset(j as u32);
        lines.push(Line { x0: 0, y0: y, x1: right, y1: y });
        j += 1;
    }
    lines
}

/// What is drawn for the cells: one filled square for each, row by row.
pub fn cell_fills(context: &Context) -> (fills: Vec<Fill>)
    requires
        context.spec_universe().wf(),
    ensures
        fills@.len() == context.spec_universe()@.cells.len(),
        forall|row: int, col: int|
            context.spec_universe()@.contains(row, col) ==> is_fill_of(
                #[trigger] fills@[context.spec_universe()@.index_of(row, col)],
                row,
                col,
                context.spec_universe()@.alive(row, col),
                context.spec_color(),
            ),
{
    let universe = context.universe();
    let color = context.color();
    let width = universe.width();
    let height = universe.height();
    let ghost grid = universe@;
    let mut fills: Vec<Fill> = Vec::new();
    let mut row: u32 = 0;
    while row < height
        invariant
            universe.wf(),
            universe@ == grid,
            width == grid.width,
            height == grid.height,
            row <= height,
            fills@.len() == row * width,
            forall|r: int, c: int|
                0 <= r < row && 0 <= c < width ==> is_fill_of(
                    #[trigger] fills@[grid.index_of(r, c)],
                    r,
                    c,
                    grid.alive(r, c),
                    color,
                ),
        decreases height - row,
    {
        let mut col: u32 = 0;
        while col < width
            invariant
                universe.wf(),
                universe@ == grid,
                width == grid.width,
                height == grid.height,
                row < height,
                col <= width,
                fills@.len() == row * width + col,
                forall|r: int, c: int|
                    (0 <= r < row && 0 <= c < width) || (r == row && 0 <= c < col) ==> is_fill_of(
                        #[trigger] fills@[grid.index_of(r, c)],
                        r,
                        c,
                        grid.alive(r, c),
                        color,
                    ),
            decreases width - col,
        {
            let random = random_hex();
            let alive = universe.is_alive(row, col);
            let style = fill_style(alive, color, random.as_str()).to_owned();
            let fill = Fill { x: offset(col), y: offset(row), style };
            proof {
                let ghost earlier = fills@;
                assert forall|r: int, c: int|
                    (0 <= r < row && 0 <= c < width) || (r == row && 0 <= c < col) implies grid.index_of(
                    r,
                    c,
                ) < earlier.len() by {
                    crate::grid::lemma_index_in_range(width as int, row + 1, r, c);
                    assert(width * (row + 1) == row * width + width) by (nonlinear_arith);
                    if r < row {
                        crate::grid::lemma_index_in_range(width as int, row as int, r, c);
                        assert(width * row == row * width) by (nonlinear_arith);
                    }
                }
            }
            fills.push(fill);
            col += 1;
        }
        assert((row + 1) * width == row * width + width) by (nonlinear_arith);
        row += 1;
    }
    assert(height * width == width * height) by (nonlinear_arith);
    fills
}

} // verus!
