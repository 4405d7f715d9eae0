//! Grading of Sudoku puzzles and selection of the next hint for a player.
//!
//! The search for deductions is done by the `sudoku` crate. This library
//! holds the battery of techniques, the grading rule, and the choice and
//! shaping of a hint, each with a proved contract.

pub mod board;
pub mod deduction;
pub mod grade;
pub mod hint;
pub mod puzzle;
pub mod solver;
pub mod technique;
pub mod tip;

pub use crate::board::{has_solution, is_win, GridError};
pub use crate::deduction::{house_cell, Candidate, Deduction};
pub use crate::grade::{grade_deductions, Grade};
pub use crate::hint::give_tip;
pub use crate::puzzle::{generate_grid, generate_grid_of_grade, grade_board, grade_board_as, Grid};
pub use crate::solver::{get_deductions, solve};
pub use crate::technique::{strategies, strategy_to_name, Technique};
pub use crate::tip::{
    choose_tip, conflicts_to_cells, tip_for_deduction, Fish, LockedCandidate, Single, Subset, Tip,
};
