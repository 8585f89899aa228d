//! Physarum (slime mould) trail simulation: agents that sense, steer, move and
//! deposit on a diffusing, evaporating trail grid.
pub mod agent;
pub mod field;
pub mod grid;
pub mod laws;
mod random;
