//! A verified core for an infinite-canvas Game of Life simulator.
//!
//! The library covers the sparse cell store, the generation engine, the
//! brush that turns a pointer anchor into a set of affected cells, the
//! mapping between continuous world positions and discrete grid cells,
//! and the tick scheduler that gates generation advancement behind a
//! fixed interval and a pause flag.  A presentation layer supplies input
//! events and reads the state back for drawing.

pub mod brush;
pub mod cell;
pub mod engine;
pub mod grid;
pub mod sim;
pub mod store;
