use sudoku::Sudoku;
use sudoku_tutor::{get_deductions, has_solution, is_win, solve, Deduction, GridError};

const PUZZLE: &str =
    "..3.2.6..9..3.5..1..18.64....81.29..7.......8..67.82....26.95..8..2.3..9..5.1.3..";
const SOLVED: &str =
    "483921657967345821251876493548132976729564138136798245372689514814253769695417382";
const BEYOND_THE_BATTERY: &str =
    ".......124...9...........5..7.2.....6.....4.....1.8....18..........3.7..5.2......";
const TWO_IN_A_BLOCK: &str =
    "..9.7...5..21..9..1...28....7...5..1..851.....5....3.......3..68........21.....87";
const EMPTY: &str =
    ".................................................................................";
const TWO_SOLUTIONS: &str =
    "48392165796734582125187649354813297672956413813679824537268951481425..6969541..82";
const ROW_WITHOUT_A_PLACE_FOR_NINE: &str =
    "12345678.........9...............................................................";

#[test]
fn a_solved_board_is_a_win() {
    assert!(is_win(SOLVED.to_string()));
}

#[test]
fn a_solved_board_with_one_digit_changed_is_no_win() {
    for cell in [0usize, 40, 80] {
        let mut line: Vec<char> = SOLVED.chars().collect();
        line[cell] = if line[cell] == '9' { '1' } else { '9' };
        assert!(!is_win(line.into_iter().collect()));
    }
}

#[test]
fn a_solved_board_with_one_cell_emptied_is_no_win() {
    for empty in ['.', '_', '0'] {
        let mut line: Vec<char> = SOLVED.chars().collect();
        line[17] = empty;
        assert!(!is_win(line.into_iter().collect()));
    }
}

#[test]
fn a_line_of_the_wrong_length_is_no_win() {
    assert!(!is_win(String::new()));
    assert!(!is_win(SOLVED[..80].to_string()));
    assert!(!is_win(format!("{}1", SOLVED)));
    assert!(!is_win("483921657".to_string()));
}

#[test]
fn a_line_with_a_strange_character_is_no_win() {
    let mut line: Vec<char> = SOLVED.chars().collect();
    line[3] = 'x';
    assert!(!is_win(line.iter().collect()));
    line[3] = '\u{e9}';
    assert!(!is_win(line.iter().collect()));
}

#[test]
fn a_solved_board_may_be_followed_by_a_delimiter() {
    for delimiter in [' ', '\t', '\n', '\r', ',', ';'] {
        assert!(is_win(format!("{}{}", SOLVED, delimiter)));
        assert!(is_win(format!("{}{}solved by hand", SOLVED, delimiter)));
    }
    assert!(!is_win(format!("{}#", SOLVED)));
    assert!(!is_win(format!("{}\u{e9}", SOLVED)));
    assert!(!is_win(format!(" {}", SOLVED)));
}

#[test]
fn an_unsolved_puzzle_is_no_win() {
    assert!(!is_win(PUZZLE.to_string()));
    assert!(!is_win(EMPTY.to_string()));
}

#[test]
fn a_puzzle_with_one_solution_has_a_solution() {
    assert_eq!(has_solution(PUZZLE), Ok(true));
    assert_eq!(has_solution(BEYOND_THE_BATTERY), Ok(true));
    assert_eq!(has_solution(SOLVED), Ok(true));
}

#[test]
fn a_board_without_solution_has_none() {
    assert_eq!(has_solution(TWO_IN_A_BLOCK), Ok(false));
    assert_eq!(has_solution(ROW_WITHOUT_A_PLACE_FOR_NINE), Ok(false));
}

#[test]
fn a_board_with_many_solutions_has_a_solution() {
    assert_eq!(has_solution(EMPTY), Ok(true));
    assert_eq!(has_solution(&"0".repeat(81)), Ok(true));
    assert_eq!(has_solution(TWO_SOLUTIONS), Ok(true));
    let board = Sudoku::from_str_line(TWO_SOLUTIONS).unwrap();
    assert_eq!(board.solutions_count_up_to(3), 2);
}

#[test]
fn a_solved_board_with_one_digit_changed_has_no_solution() {
    let mut line: Vec<char> = SOLVED.chars().collect();
    line[0] = '9';
    let line: String = line.into_iter().collect();
    assert_eq!(has_solution(&line), Ok(false));
}

#[test]
fn a_line_that_gives_no_board_is_invalid() {
    assert_eq!(has_solution("no board"), Err(GridError::Invalid));
    assert_eq!(has_solution(&PUZZLE[..80]), Err(GridError::Invalid));
    assert_eq!(get_deductions("no board").unwrap_err(), GridError::Invalid);
    assert_eq!(get_deductions(&format!("{}7", PUZZLE)).unwrap_err(), GridError::Invalid);
}

#[test]
fn a_board_beyond_the_battery_is_unsolved() {
    assert_eq!(get_deductions(BEYOND_THE_BATTERY).unwrap_err(), GridError::Unsolved);
    assert_eq!(get_deductions(EMPTY).unwrap_err(), GridError::Unsolved);
    assert_eq!(get_deductions(TWO_IN_A_BLOCK).unwrap_err(), GridError::Unsolved);
    assert_eq!(get_deductions(TWO_SOLUTIONS).unwrap_err(), GridError::Unsolved);
}

#[test]
fn empty_cells_may_be_written_in_three_ways() {
    let with_dots = get_deductions(PUZZLE).unwrap();
    let with_zeros = get_deductions(&PUZZLE.replace('.', "0")).unwrap();
    let with_underscores = get_deductions(&PUZZLE.replace('.', "_")).unwrap();
    assert_eq!(with_dots, with_zeros);
    assert_eq!(with_dots, with_underscores);
}

#[test]
fn the_deductions_of_a_puzzle_fill_its_empty_cells_with_the_solution() {
    let deductions = get_deductions(PUZZLE).unwrap();
    let mut cells: Vec<char> = PUZZLE.chars().collect();
    for deduction in deductions.iter() {
        match deduction {
            Deduction::NakedSingle(c) | Deduction::HiddenSingle(c) => {
                assert_eq!(cells[c.cell], '.');
                cells[c.cell] = char::from_digit(c.digit as u32, 10).unwrap();
            }
            _ => {}
        }
    }
    let filled: String = cells.into_iter().collect();
    assert_eq!(filled, SOLVED);
}

#[test]
fn a_board_is_solved_as_its_line_is() {
    for line in [PUZZLE, SOLVED, BEYOND_THE_BATTERY, EMPTY] {
        let board = Sudoku::from_str_line(line).unwrap();
        assert_eq!(solve(&board), get_deductions(line).ok());
    }
}

#[test]
fn a_solved_board_needs_no_deductions() {
    assert_eq!(get_deductions(SOLVED), Ok(vec![]));
}

#[test]
fn writing_and_reading_a_board_gives_the_board_again() {
    for line in [PUZZLE, SOLVED, BEYOND_THE_BATTERY, EMPTY, TWO_IN_A_BLOCK] {
        let board = Sudoku::from_str_line(line).unwrap();
        let written = board.to_str_line().to_string();
        assert_eq!(Sudoku::from_str_line(&written), Ok(board));
        assert_eq!(written, line);
    }
}
