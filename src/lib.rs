//! A falling-sand cellular automaton: a grid of cells, each holding one
//! substance, evolved by randomized local rules (gravity, density stacking,
//! fluid spread, combustion, infection).
pub mod cells;
pub mod game;
pub mod grid;
pub mod laws;
pub mod rules;
