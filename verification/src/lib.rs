//! A terminal renderer for a water surface: it keeps a model of what the
//! terminal shows, turns each new frame into the shortest stream of
//! control sequences that brings the terminal up to date, and decides what
//! to do with each keyboard or resize event.

pub mod ansi;
pub mod input;
pub mod renderer;
