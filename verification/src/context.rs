//! What the event listeners of a page share: the surface to draw on, the
//! universe, and how it is drawn.

use crate::universe::Universe;
use vstd::prelude::*;
use web_sys::CanvasRenderingContext2d;

verus! {

/// `web_sys::CanvasRenderingContext2d`, carried as a value of which nothing
/// is known.
#[verifier::external_type_specification]
#[verifier::external_body]
pub struct ExCanvasRenderingContext2d(CanvasRenderingContext2d);

/// The state that is handed to every event listener.
pub struct Context {
    rendering_context: CanvasRenderingContext2d,
    universe: Universe,
    color: bool,
}

impl Context {
    /// The drawing surface that the context holds.
    pub closed spec fn spec_rendering_context(&self) -> CanvasRenderingContext2d {
        self.rendering_context
    }

    /// The universe that the context holds.
    pub closed spec fn spec_universe(&self) -> Universe {
        self.universe
    }

    /// Whether live cells are drawn in random colours.
    pub closed spec fn spec_color(&self) -> bool {
        self.color
    }

    /// Puts the three parts together.
    pub fn new(rendering_context: CanvasRenderingContext2d, universe: Universe, color: bool) -> (context:
        Self)
        ensures
            context.spec_rendering_context() == rendering_context,
            context.spec_universe() == universe,
            context.spec_color() == color,
    {
        Self { rendering_context, universe, color }
    }

    /// The drawing surface.
    pub fn rendering_context(&self) -> (rendering_context: &CanvasRenderingContext2d)
        ensures
            *rendering_context == self.spec_rendering_context(),
    {
        &self.rendering_context
    }

    /// The universe, to read.
    pub fn universe(&self) -> (universe: &Universe)
        ensures
            *universe == self.spec_universe(),
    {
        &self.universe
    }

    /// The universe, to change. Whatever the caller makes of it is the
    /// universe of the context afterwards; nothing else changes.
    pub fn universe_mut(&mut self) -> (universe: &mut Universe)
        ensures
            *universe == old(self).spec_universe(),
            final(self).spec_universe() == *final(universe),
            final(self).spec_color() == old(self).spec_color(),
            final(self).spec_rendering_context() == old(self).spec_rendering_context(),
    {
        &mut self.universe
    }

    /// Whether live cells are drawn in random colours.
    pub fn color(&self) -> (color: bool)
        ensures
            color == self.spec_color(),
    {
        self.color
    }

    /// Switches between random colours and black.
    pub fn flip_color(&mut self)
        ensures
            final(self).spec_color() == !old(self).spec_color(),
            final(self).spec_universe() == old(self).spec_universe(),
            final(self).spec_rendering_context() == old(self).spec_rendering_context(),
    {
        self.color = !self.color;
    }
}

} // verus!
