//! Decorates and animates the multi-line text of a value: a seeded sparkle
//! overlay, a grid layout that centers text in a fixed-size screen, and a
//! toroidal cellular automaton that drives a highlight over the grid.
pub mod frame;
pub mod game_of_life;
pub mod lines;
pub mod prettier_printer;
pub mod rng;
pub mod sparkles;
pub mod text;
