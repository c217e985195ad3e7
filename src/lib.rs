//! Game logic of a snake game on a toroidal grid: movement with wraparound,
//! turn filtering, food placement and the per-tick world update.

pub mod direction;
pub mod food;
pub mod grid;
pub mod render;
pub mod snake;
pub mod world;
