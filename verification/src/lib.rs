//! Conway's Game of Life on a fixed-size torus, with what a page needs to
//! show it on a canvas.
//!
//! - [`grid`]: the mathematical model of one generation and of the step
//!   from one generation to the next.
//! - [`universe`]: the executable engine, proved against the model.
//! - [`patterns`]: still lifes, oscillators and spaceships, and what the
//!   step does to them.
//! - [`context`], [`controls`], [`render`]: the state that the event
//!   listeners of a page share, what each control does to it, and what is
//!   drawn where.
//! - [`error`]: a small error type.

pub mod context;
pub mod controls;
pub mod error;
pub mod grid;
pub mod patterns;
pub mod render;
pub mod universe;
