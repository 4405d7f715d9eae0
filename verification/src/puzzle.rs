//! Puzzles of a known grade, drawn at random.

use vstd::prelude::*;
use sudoku::Sudoku;
use crate::board::{
    board_cells, board_line, cells_line, draw_board, draw_board_without_symmetry,
    is_board_line, lemma_line_round_trip, line_cells,
};
use crate::grade::{grade_deductions, grade_of, Grade};
use crate::solver::{battery_deductions, solve};

verus! {

/// A puzzle as a line of text, and its grade.
#[derive(Clone, Debug, PartialEq, Eq)]
pub struct Grid {
    pub grid: String,
    pub difficulty: Grade,
}

/// The grade of the board that a line of text gives: that of the
/// deductions with which the battery of techniques solves the board.
/// `None` where the line gives no board or the battery does not solve it.
pub open spec fn line_grade(line: Seq<char>) -> Option<Grade> {
    match line_cells(line) {
        Some(cells) => match battery_deductions(cells) {
            Some(deductions) => Some(grade_of(deductions)),
            None => None,
        },
        None => None,
    }
}

/// The board as a puzzle with its grade, where the battery of techniques
/// solves it.
pub fn grade_board(board: &Sudoku) -> (graded: Option<Grid>)
    ensures
        match graded {
            Some(puzzle) => {
                &&& puzzle.grid@ == cells_line(board_cells(*board))
                &&& battery_deductions(board_cells(*board)) matches Some(deductions)
                &&& puzzle.difficulty == grade_of(deductions)
            },
            None => battery_deductions(board_cells(*board)) is None,
        },
{
    match solve(board) {
        Some(deductions) => Some(
            Grid { grid: board_line(board), difficulty: grade_deductions(&deductions) },
        ),
        None => None,
    }
}

/// The board as a puzzle with its grade, where the battery of techniques
/// solves it and the grade is the wanted one, given by its rank.
pub fn grade_board_as(board: &Sudoku, wanted: i32) -> (graded: Option<Grid>)
    ensures
        match graded {
            Some(puzzle) => {
                &&& puzzle.grid@ == cells_line(board_cells(*board))
                &&& battery_deductions(board_cells(*board)) matches Some(deductions)
                &&& puzzle.difficulty == grade_of(deductions)
                &&& puzzle.difficulty.rank() == wanted
            },
            None => battery_deductions(board_cells(*board)) matches Some(deductions)
                ==> grade_of(deductions).rank() != wanted,
        },
{
    match grade_board(board) {
        Some(puzzle) => if puzzle.difficulty.rank() == wanted {
            Some(puzzle)
        } else {
            None
        },
        None => None,
    }
}

/// Draws puzzles until the battery of techniques solves one, and returns
/// it with its grade; gives up after `attempts` draws.
pub fn generate_grid(attempts: usize) -> (drawn: Option<Grid>)
    ensures
        drawn matches Some(puzzle) ==> line_grade(puzzle.grid@) == Some(puzzle.difficulty),
        drawn matches Some(puzzle) ==> is_board_line(puzzle.grid@),
        attempts == 0 ==> drawn is None,
{
    let mut left: usize = attempts;
    while left > 0
        invariant
            left <= attempts,
        decreases left,
    {
        let board: Sudoku = draw_board();
        if let Some(puzzle) = grade_board(&board) {
            proof {
                lemma_line_round_trip(board_cells(board));
            }
            return Some(puzzle);
        }
        left = left - 1;
    }
    None
}

/// Draws puzzles until one has the grade of rank `wanted`, from 0 for
/// `Beginner` to 4 for `Hard`, and returns it; gives up after `attempts` draws.
pub fn generate_grid_of_grade(wanted: i32, attempts: usize) -> (drawn: Option<Grid>)
    ensures
        drawn matches Some(puzzle) ==> line_grade(puzzle.grid@) == Some(puzzle.difficulty)
            && puzzle.difficulty.rank() == wanted,
        drawn matches Some(puzzle) ==> is_board_line(puzzle.grid@),
        attempts == 0 || wanted < 0 || wanted > 4 ==> drawn is None,
{
    if wanted < 0 || wanted > 4 {
        return None;
    }
    let mut left: usize = attempts;
    while left > 0
        invariant
            left <= attempts,
        decreases left,
    {
        let board: Sudoku = draw_board_without_symmetry();
        if let Some(puzzle) = grade_board_as(&board, wanted) {
            proof {
                lemma_line_round_trip(board_cells(board));
            }
            return Some(puzzle);
        }
        left = left - 1;
    }
    None
}

} // verus!
