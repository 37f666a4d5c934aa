//! pts: an editor model for point markers on a 2D canvas.
//!
//! The library holds the point store, the selection model, the chorded
//! keyboard commands and the pointer handlers of the three interaction modes.
//! Positions are whole canvas units; rendering, windowing and disk access are
//! left to the program that embeds it.

pub mod geometry;
pub mod persistence;
pub mod selection;
pub mod state;
pub mod config;
pub mod keyboard;
pub mod interactions;
