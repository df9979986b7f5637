//! Programmable ant colonies on a bounded hex-offset grid: the grid and world
//! model, the branching instruction set that drives each ant, and the
//! simulator that runs one instruction per ant per tick.
pub mod data;
pub mod invariants;
pub mod program;
pub mod sim;
pub mod world;
