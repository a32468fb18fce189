//! What each control of the page does to the shared state. The caller
//! listens for the events, calls in here, and draws again.

use crate::context::Context;
use crate::render::{cell_under, spec_cell_under};
use vstd::prelude::*;

verus! {

/// Milliseconds between two generations while the simulation runs.
pub const TICK_MILLIS: u64 = 100;

/// The cells of the spaceship that the page can put into the upper left
/// corner: a glider heading down and to the right.
pub open spec fn spec_spaceship() -> Seq<(u32, u32)> {
    seq![(1u32, 2u32), (2u32, 3u32), (3u32, 1u32), (3u32, 2u32), (3u32, 3u32)]
}

/// The cells of the spaceship, as `(row, col)`.
pub fn spaceship() -> (cells: [(u32, u32); 5])
    ensures
        cells@ == spec_spaceship(),
{
    let cells: [(u32, u32); 5] = [(1, 2), (2, 3), (3, 1), (3, 2), (3, 3)];
    assert(cells@ =~= spec_spaceship());
    cells
}

/// The text of the pause button after a click, where `active` says whether
/// the simulation was running before the click.
pub fn pause_label(active: bool) -> (label: &'static str)
    ensures
        label@ == if active {
            "Resume"@
        } else {
            "Pause"@
        },
{
    if active {
        "Resume"
    } else {
        "Pause"
    }
}

/// The text of the colour button after a click, where `color` says whether
/// random colours were on before the click.
pub fn color_label(color: bool) -> (label: &'static str)
    ensures
        label@ == if color {
            "B/W"@
        } else {
            "Color"@
        },
{
    if color {
        "B/W"
    } else {
        "Color"
    }
}

/// A click on the canvas, `left` pixels from its left edge and `top` pixels
/// from its upper edge: flips the cell under the pointer. A click that hits
/// no cell changes nothing. Says whether a cell was flipped.
pub fn handle_click_on_canvas(left: i32, top: i32, context: &mut Context) -> (flipped: bool)
    requires
        old(context).spec_universe().wf(),
    ensures
        final(context).spec_universe().wf(),
        final(context).spec_color() == old(context).spec_color(),
        final(context).spec_rendering_context() == old(context).spec_rendering_context(),
        flipped == old(context).spec_universe()@.contains(
            spec_cell_under(top as int),
            spec_cell_under(left as int),
        ),
        final(context).spec_universe()@ == if flipped {
            old(context).spec_universe()@.toggled(
                spec_cell_under(top as int),
                spec_cell_under(left as int),
            )
        } else {
            old(context).spec_universe()@
        },
{
    let col = cell_under(left);
    let row = cell_under(top);
    let universe = context.universe_mut();
    if universe.contains(row, col) {
        universe.toggle(row, col);
        true
    } else {
        false
    }
}

/// Puts the spaceship into the upper left corner, leaving the other cells as
/// they are. A universe of fewer than four rows or columns cannot hold it
/// and stays as it is. Says whether the spaceship was put in.
pub fn draw_spaceship(context: &mut Context) -> (drawn: bool)
    requires
        old(context).spec_universe().wf(),
    ensures
        final(context).spec_universe().wf(),
        final(context).spec_color() == old(context).spec_color(),
        final(context).spec_rendering_context() == old(context).spec_rendering_context(),
        drawn == (old(context).spec_universe()@.width >= 4 && old(context).spec_universe()@.height
            >= 4),
        final(context).spec_universe()@ == if drawn {
            old(context).spec_universe()@.stamped(spec_spaceship())
        } else {
            old(context).spec_universe()@
        },
{
    let universe = context.universe_mut();
    if universe.width() >= 4 && universe.height() >= 4 {
        let cells = spaceship();
        universe.set_alive(cells.as_slice());
        true
    } else {
        false
    }
}

} // verus!
