//! Boards: what a line of text says of a board, when a board is solved,
//! and the calls into the `sudoku` crate that read, write and judge one.

use vstd::prelude::*;
use sudoku::errors::LineParseError;
use sudoku::{Sudoku, Symmetry};
use crate::deduction::cell_at;

verus! {

/// The board of the `sudoku` crate. Its cells are named by `board_cells`.
#[verifier::external_type_specification]
#[verifier::external_body]
pub struct ExSudoku(Sudoku);

/// The error with which the `sudoku` crate refuses a line.
#[verifier::external_type_specification]
#[verifier::external_body]
pub struct ExLineParseError(LineParseError);

/// The 81 cells of a board, row by row: 0 for an empty cell, else its digit.
pub uninterp spec fn board_cells(board: Sudoku) -> Seq<u8>;

/// Whether the cells are those of a board: 81 of them, none above 9.
pub open spec fn valid_cells(cells: Seq<u8>) -> bool {
    cells.len() == 81 && forall|i: int| 0 <= i < 81 ==> #[trigger] cells[i] <= 9
}

/// What a character says of a cell: `_`, `.` and `0` stand for an empty
/// cell, `1` to `9` for the digit; no other character stands for a cell.
pub open spec fn entry_value(c: char) -> Option<u8> {
    if c == '_' || c == '.' {
        Some(0u8)
    } else if 0x30 <= c as u32 <= 0x39 {
        Some((c as u32 - 0x30) as u8)
    } else {
        None
    }
}

/// Whether the character may follow the 81 cells of a line: a space, a
/// tab, a line feed, a carriage return, a comma or a semicolon.
pub open spec fn is_delimiter(c: char) -> bool {
    c == ' ' || c == '\t' || c == '\n' || c == '\r' || c == ',' || c == ';'
}

/// The cells that a line of text gives, or `None` where it gives no board.
///
/// A line gives a board where its first 81 characters each stand for a
/// cell and where it ends there or goes on with a delimiter.
pub open spec fn line_cells(line: Seq<char>) -> Option<Seq<u8>> {
    if line.len() >= 81 && (forall|i: int| 0 <= i < 81 ==> entry_value(#[trigger] line[i]) is Some)
        && (line.len() == 81 || is_delimiter(line[81])) {
        Some(Seq::new(81, |i: int| entry_value(line[i]).unwrap()))
    } else {
        None
    }
}

/// The line of text for the cells: `.` for an empty cell, else the digit.
pub open spec fn cells_line(cells: Seq<u8>) -> Seq<char> {
    Seq::new(
        81,
        |i: int|
            if cells[i] == 0 {
                '.'
            } else {
                (cells[i] + 0x30) as char
            },
    )
}

/// Whether the line is the written form of the board that it gives: 81
/// characters, `.` for each empty cell and its digit for each other.
pub open spec fn is_board_line(line: Seq<char>) -> bool {
    line_cells(line) matches Some(cells) && line == cells_line(cells)
}

/// Whether the house holds the digit in one of its nine cells.
pub open spec fn house_holds(cells: Seq<u8>, house: int, digit: int) -> bool {
    exists|pos: int| 0 <= pos < 9 && cells[#[trigger] cell_at(house, pos)] == digit
}

/// Whether the cells are a solved board: every cell holds a digit, and
/// every row, column and block holds each of the digits 1 to 9.
pub open spec fn is_solved_grid(cells: Seq<u8>) -> bool {
    &&& cells.len() == 81
    &&& forall|i: int| 0 <= i < 81 ==> 1 <= #[trigger] cells[i] <= 9
    &&& forall|house: int, digit: int|
        0 <= house < 27 && 1 <= digit <= 9 ==> #[trigger] house_holds(cells, house, digit)
}

/// Whether `full` is a solved board that keeps every digit of `cells`.
pub open spec fn completes(full: Seq<u8>, cells: Seq<u8>) -> bool {
    &&& is_solved_grid(full)
    &&& cells.len() == 81
    &&& forall|i: int| 0 <= i < 81 && cells[i] != 0 ==> #[trigger] full[i] == cells[i]
}

/// Whether some solved board keeps every digit of `cells`.
pub open spec fn has_completion(cells: Seq<u8>) -> bool {
    exists|full: Seq<u8>| #[trigger] completes(full, cells)
}

/// Writing a board as a line and reading the line gives the board again.
pub proof fn lemma_line_round_trip(cells: Seq<u8>)
    requires
        valid_cells(cells),
    ensures
        line_cells(cells_line(cells)) == Some(cells),
{
    let line: Seq<char> = cells_line(cells);
    assert forall|i: int| 0 <= i < 81 implies entry_value(#[trigger] line[i]) == Some(
        cells[i],
    ) by {
        assert(cells[i] <= 9);
    }
    assert(Seq::new(81, |i: int| entry_value(line[i]).unwrap()) =~= cells);
}

/// Reads a board from a line of text, by `Sudoku::from_str_line`.
///
/// Trusted: the crate accepts exactly the lines for which `line_cells`
/// gives cells, and the board that it returns holds those cells.
#[verifier::external_body]
pub(crate) fn parse_line(line: &str) -> (parsed: Result<Sudoku, LineParseError>)
    ensures
        match parsed {
            Ok(board) => line_cells(line@) == Some(board_cells(board)),
            Err(_) => line_cells(line@) is None,
        },
{
    Sudoku::from_str_line(line)
}

/// Writes a board as a line of text, by `Sudoku::to_str_line`.
///
/// Trusted: the line holds one character for each cell, `.` for an
/// empty one and the digit for the others.
#[verifier::external_body]
pub(crate) fn board_line(board: &Sudoku) -> (line: String)
    ensures
        line@ == cells_line(board_cells(*board)),
{
    board.to_str_line().to_string()
}

/// Tells whether a board is solved, by `Sudoku::is_solved`.
///
/// Trusted: the crate answers `true` exactly where each cell holds a
/// digit and each row, column and block holds all nine.
#[verifier::external_body]
pub(crate) fn board_is_solved(board: &Sudoku) -> (solved: bool)
    ensures
        solved == is_solved_grid(board_cells(*board)),
{
    board.is_solved()
}

/// Looks for a solution of a board, by `Sudoku::some_solution`.
///
/// Trusted: what the crate's search returns is a solved board that keeps
/// the digits of this one, and it returns none only where there is none.
#[verifier::external_body]
pub(crate) fn board_solution(board: &Sudoku) -> (found: Option<Sudoku>)
    ensures
        match found {
            Some(full) => completes(board_cells(full), board_cells(*board)),
            None => !has_completion(board_cells(*board)),
        },
{
    board.some_solution()
}

/// Draws a random puzzle, by `Sudoku::generate`.
///
/// Trusted: what comes back is a board. Which board is left open.
#[verifier::external_body]
pub(crate) fn draw_board() -> (board: Sudoku)
    ensures
        valid_cells(board_cells(board)),
{
    Sudoku::generate()
}

/// Draws a random puzzle whose clues need not lie symmetrically, by
/// `Sudoku::generate_with_symmetry`.
///
/// Trusted: what comes back is a board. Which board is left open.
#[verifier::external_body]
pub(crate) fn draw_board_without_symmetry() -> (board: Sudoku)
    ensures
        valid_cells(board_cells(board)),
{
    Sudoku::generate_with_symmetry(Symmetry::None)
}

/// Why a line of text gives no deductions.
#[derive(Clone, Copy, PartialEq, Eq, Structural, Debug)]
pub enum GridError {
    /// The line gives no board.
    Invalid,
    /// The techniques of the battery do not solve the board.
    Unsolved,
}

/// Whether the line gives a solved board. A line that gives no board is
/// no win.
pub fn is_win(grid: String) -> (win: bool)
    ensures
        win == match line_cells(grid@) {
            Some(cells) => is_solved_grid(cells),
            None => false,
        },
{
    match parse_line(grid.as_str()) {
        Ok(board) => board_is_solved(&board),
        Err(_) => false,
    }
}

/// Whether the board that the line gives has a solution: one or more.
pub fn has_solution(grid: &str) -> (solvable: Result<bool, GridError>)
    ensures
        match solvable {
            Ok(b) => line_cells(grid@) matches Some(cells) && b == has_completion(cells),
            Err(e) => e == GridError::Invalid && line_cells(grid@) is None,
        },
{
    match parse_line(grid) {
        Ok(board) => match board_solution(&board) {
            Some(_) => Ok(true),
            None => Ok(false),
        },
        Err(_) => Err(GridError::Invalid),
    }
}

} // verus!
