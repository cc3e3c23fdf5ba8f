//! Rule engine for a Sokoban-style puzzle: a grid of cells in which a
//! player pushes movable cases onto target cells. The cell algebra resolves
//! each move over a three-cell window by a single volume-conservation check;
//! the scene owns the grid, the player coordinate and the undo history.

pub mod cell;
pub mod scene;
