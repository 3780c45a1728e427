//! A rendering backend for an immediate-mode GUI: the draw data of a frame is
//! turned into the drawing operations of a two-dimensional hardware canvas.
//!
//! Coordinates are binary32 numbers. The library holds them as bit patterns
//! and computes on those, so that every result is stated exactly.

pub mod arith;
pub mod canvas;
pub mod clip;
pub mod draw_data;
pub mod geometry;
pub mod gui;
pub mod nearest;
pub mod order;
pub mod plan;
pub mod renderer;
pub mod rounding;
pub mod single;
pub mod truncation;
