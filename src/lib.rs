//! Conway's Game of Life on a bounded, non-wrapping grid: the cell primitive,
//! the survival rule, random seeding, and the generation-stepping engine.

pub mod cell;
pub mod game;
pub mod controls;
