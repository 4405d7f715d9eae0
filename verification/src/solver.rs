//! The solver of the `sudoku` crate: what is trusted of it, and the
//! verified code that turns what it finds into deductions of this library.

use vstd::prelude::*;
use sudoku::strategy::deduction::Deductions;
use sudoku::strategy::Deduction as Found;
use sudoku::strategy::{Strategy, StrategySolver};
use sudoku::Sudoku;
use crate::board::{board_cells, line_cells, parse_line, GridError};
use crate::deduction::{
    all_below, all_candidates, all_digits, all_of_digit, all_wf, shape_allows, views, Candidate,
    Deduction, DeductionView,
};
use crate::technique::{lemma_registry_is_without_rectangles, registry, strategies, Technique};

verus! {

/// A strategy of the `sudoku` crate. `strategy_technique` names the
/// technique that it stands for.
#[verifier::external_type_specification]
#[verifier::external_body]
pub struct ExStrategy(Strategy);

/// The deductions that the solver of the `sudoku` crate made on a board.
/// `found_deductions` names them.
#[verifier::external_type_specification]
#[verifier::external_body]
pub struct ExDeductions(Deductions);

/// The technique that a strategy of the `sudoku` crate stands for.
pub uninterp spec fn strategy_technique(strategy: Strategy) -> Technique;

/// The deductions that a `Deductions` value holds, in the solver's order.
pub uninterp spec fn found_deductions(deductions: Deductions) -> Seq<DeductionView>;

/// What the solver of the `sudoku` crate makes of a board with the given
/// techniques, tried in their order: the deductions that solve the
/// board, or `None` where the techniques do not solve it.
pub uninterp spec fn solver_deductions(cells: Seq<u8>, techniques: Seq<Technique>) -> Option<
    Seq<DeductionView>,
>;

/// The techniques that the strategies stand for.
pub open spec fn techniques_of(strategies: Seq<Strategy>) -> Seq<Technique> {
    strategies.map_values(|s: Strategy| strategy_technique(s))
}

/// The candidate of a single.
pub open spec fn single_part(deduction: DeductionView) -> Option<Candidate> {
    match deduction {
        DeductionView::NakedSingle(c) => Some(c),
        DeductionView::HiddenSingle(c) => Some(c),
        _ => None,
    }
}

/// The digit and the conflicts of a locked candidate.
pub open spec fn locked_part(deduction: DeductionView) -> Option<(usize, Seq<Candidate>)> {
    match deduction {
        DeductionView::LockedCandidates { digit, conflicts } => Some((digit, conflicts)),
        _ => None,
    }
}

/// The house, the positions, the digits and the conflicts of a subset.
pub open spec fn subset_part(deduction: DeductionView) -> Option<
    (usize, Seq<usize>, Seq<usize>, Seq<Candidate>),
> {
    match deduction {
        DeductionView::Subsets { house, positions, digits, conflicts, .. } => Some(
            (house, positions, digits, conflicts),
        ),
        _ => None,
    }
}

/// The digit, the lines, the positions and the conflicts of a fish in lines.
pub open spec fn basic_fish_part(deduction: DeductionView) -> Option<
    (usize, Seq<usize>, Seq<usize>, Seq<Candidate>),
> {
    match deduction {
        DeductionView::BasicFish { digit, lines, positions, conflicts, .. } => Some(
            (digit, lines, positions, conflicts),
        ),
        _ => None,
    }
}

/// The digit, the base houses and the conflicts of a fish in houses.
pub open spec fn fish_part(deduction: DeductionView) -> Option<
    (usize, Seq<usize>, Seq<Candidate>),
> {
    match deduction {
        DeductionView::Fish { digit, base, conflicts, .. } => Some((digit, base, conflicts)),
        _ => None,
    }
}

/// Gives the strategy of the `sudoku` crate for a technique.
///
/// Trusted: the strategy is the variant of `Strategy` of the same name.
#[verifier::external_body]
fn to_strategy(technique: Technique) -> (strategy: Strategy)
    ensures
        strategy_technique(strategy) == technique,
{
    match technique {
        Technique::NakedSingles => Strategy::NakedSingles,
        Technique::HiddenSingles => Strategy::HiddenSingles,
        Technique::LockedCandidates => Strategy::LockedCandidates,
        Technique::NakedPairs => Strategy::NakedPairs, Technique::NakedTriples => Strategy::NakedTriples,
        Technique::NakedQuads => Strategy::NakedQuads, Technique::HiddenPairs => Strategy::HiddenPairs,
        Technique::HiddenTriples => Strategy::HiddenTriples, Technique::HiddenQuads => Strategy::HiddenQuads,
        Technique::XWing => Strategy::XWing, Technique::Swordfish => Strategy::Swordfish,
        Technique::Jellyfish => Strategy::Jellyfish, Technique::XyWing => Strategy::XyWing,
        Technique::XyzWing => Strategy::XyzWing,
        Technique::MutantSwordfish => Strategy::MutantSwordfish,
        Technique::MutantJellyfish => Strategy::MutantJellyfish,
        Technique::AvoidableRectangles => Strategy::AvoidableRectangles,
    }
}

/// Solves a board with the given strategies, by
/// `StrategySolver::from_sudoku` and `StrategySolver::solve`.
///
/// Trusted: the outcome depends on the board's cells and on the
/// strategies alone, and the deductions are returned exactly where the
/// solver filled the board. The crate has no code for avoidable
/// rectangles and stops the program there, so that strategy is left out.
#[verifier::external_body]
fn solve_board(board: &Sudoku, strategies: &Vec<Strategy>) -> (found: Option<Deductions>)
    requires
        forall|i: int|
            0 <= i < strategies@.len() ==> strategy_technique(#[trigger] strategies@[i])
                != Technique::AvoidableRectangles,
    ensures
        match found {
            Some(deductions) => solver_deductions(
                board_cells(*board),
                techniques_of(strategies@),
            ) == Some(found_deductions(deductions)),
            None => solver_deductions(board_cells(*board), techniques_of(strategies@)) is None,
        },
{
    match StrategySolver::from_sudoku(*board).solve(strategies) {
        Ok((_, deductions)) => Some(deductions),
        Err(_) => None,
    }
}

/// Counts the deductions, by `Deductions::len`.
///
/// Trusted: the count is that of the deductions that the value holds.
#[verifier::external_body]
fn deduction_count(deductions: &Deductions) -> (count: usize)
    ensures
        count == found_deductions(*deductions).len(),
{
    deductions.len()
}

/// Gives the number of the technique that made a deduction, by
/// `Deductions::get` and `Deduction::strategy`.
///
/// Trusted: the crate numbers its strategies in the order of the
/// variants of `Technique`, it can name the strategy of every deduction
/// that its solver makes, and the strategy that it names is one of the
/// deduction's shape.
#[verifier::external_body]
fn technique_at(deductions: &Deductions, index: usize) -> (number: usize)
    requires
        index < found_deductions(*deductions).len(),
    ensures
        number == found_deductions(*deductions)[index as int].technique().index(),
        shape_allows(
            found_deductions(*deductions)[index as int],
            Technique::spec_from_index(number).unwrap(),
        ),
{
    deductions.get(index).unwrap().strategy() as usize
}

/// Gives the candidate of a deduction that is a single, by
/// `Deductions::get`; `None` for a deduction of another shape.
///
/// Trusted: the cell and the digit are those that the solver placed; a
/// cell of the crate is below 81 and a digit is from 1 to 9.
#[verifier::external_body]
fn single_at(deductions: &Deductions, index: usize) -> (part: Option<Candidate>)
    requires
        index < found_deductions(*deductions).len(),
    ensures
        part == single_part(found_deductions(*deductions)[index as int]),
        part matches Some(c) ==> c.wf(),
{
    match deductions.get(index) {
        Some(Found::NakedSingles(c)) | Some(Found::HiddenSingles(c, _)) => Some(
            Candidate { cell: c.cell.as_index(), digit: c.digit.get() as usize },
        ),
        _ => None,
    }
}

/// Gives the parts of a deduction that is a locked candidate, by
/// `Deductions::get`; `None` for a deduction of another shape.
///
/// Trusted: the digit and the conflicts are the solver's, the conflicts
/// in its order, each of them of that digit, with cells below 81 and
/// the digit from 1 to 9.
#[verifier::external_body]
fn locked_at(deductions: &Deductions, index: usize) -> (part: Option<(usize, Vec<Candidate>)>)
    requires
        index < found_deductions(*deductions).len(),
    ensures
        match part {
            Some((digit, conflicts)) => {
                &&& locked_part(found_deductions(*deductions)[index as int]) == Some(
                    (digit, conflicts@),
                )
                &&& 1 <= digit <= 9
                &&& all_candidates(conflicts@)
                &&& all_of_digit(conflicts@, digit)
            },
            None => locked_part(found_deductions(*deductions)[index as int]) is None,
        },
{
    match deductions.get(index) {
        Some(Found::LockedCandidates { digit, conflicts, .. }) => Some((
            digit.get() as usize,
            conflicts.iter().map(|c| Candidate { cell: c.cell.as_index(), digit: c.digit.get() as usize }).collect(),
        )),
        _ => None,
    }
}

/// Gives the parts of a deduction that is a subset, by
/// `Deductions::get`; `None` for a deduction of another shape. The
/// positions and the digits come as the crate's sets hand them out, in
/// rising order.
///
/// Trusted: the parts are the solver's; a house of the crate is below
/// 27, a position below 9, a cell below 81, a digit from 1 to 9.
#[verifier::external_body]
fn subset_at(deductions: &Deductions, index: usize) -> (part: Option<
    (usize, Vec<usize>, Vec<usize>, Vec<Candidate>),
>)
    requires
        index < found_deductions(*deductions).len(),
    ensures
        match part {
            Some((house, positions, digits, conflicts)) => {
                &&& subset_part(found_deductions(*deductions)[index as int]) == Some(
                    (house, positions@, digits@, conflicts@),
                )
                &&& house < 27
                &&& all_below(positions@, 9)
                &&& all_digits(digits@)
                &&& all_candidates(conflicts@)
            },
            None => subset_part(found_deductions(*deductions)[index as int]) is None,
        },
{
    match deductions.get(index) {
        Some(Found::Subsets { house, positions, digits, conflicts }) => Some((
            house.as_index(),
            positions.into_iter().map(|p| p.as_index()).collect(),
            digits.into_iter().map(|d| d.get() as usize).collect(),
            conflicts.iter().map(|c| Candidate { cell: c.cell.as_index(), digit: c.digit.get() as usize }).collect(),
        )),
        _ => None,
    }
}

/// Gives the parts of a deduction that is a fish in lines, by
/// `Deductions::get`; `None` for a deduction of another shape. The
/// lines and the positions come as the crate's sets hand them out, in
/// rising order.
///
/// Trusted: the parts are the solver's; there are 2 to 4 lines and as
/// many positions, and every conflict is of the fish's digit; a line of
/// the crate is below 18, a position below 9, a cell below 81, a digit
/// from 1 to 9.
#[verifier::external_body]
fn basic_fish_at(deductions: &Deductions, index: usize) -> (part: Option<
    (usize, Vec<usize>, Vec<usize>, Vec<Candidate>),
>)
    requires
        index < found_deductions(*deductions).len(),
    ensures
        match part {
            Some((digit, lines, positions, conflicts)) => {
                &&& basic_fish_part(found_deductions(*deductions)[index as int]) == Some(
                    (digit, lines@, positions@, conflicts@),
                )
                &&& 1 <= digit <= 9
                &&& 2 <= lines@.len() <= 4
                &&& lines@.len() == positions@.len()
                &&& all_below(lines@, 18)
                &&& all_below(positions@, 9)
                &&& all_candidates(conflicts@)
                &&& all_of_digit(conflicts@, digit)
            },
            None => basic_fish_part(found_deductions(*deductions)[index as int]) is None,
        },
{
    match deductions.get(index) {
        Some(Found::BasicFish { digit, lines, positions, conflicts }) => Some((
            digit.get() as usize,
            lines.into_iter().map(|l| l.as_index()).collect(),
            positions.into_iter().map(|p| p.as_index()).collect(),
            conflicts.iter().map(|c| Candidate { cell: c.cell.as_index(), digit: c.digit.get() as usize }).collect(),
        )),
        _ => None,
    }
}

/// Gives the parts of a deduction that is a fish in houses, by
/// `Deductions::get`; `None` for a deduction of another shape. The base
/// houses come as the crate's set hands them out, in rising order.
///
/// Trusted: the parts are the solver's, and every conflict is of the
/// fish's digit; a house of the crate is below 27, a cell below 81, a
/// digit from 1 to 9.
#[verifier::external_body]
fn fish_at(deductions: &Deductions, index: usize) -> (part: Option<
    (usize, Vec<usize>, Vec<Candidate>),
>)
    requires
        index < found_deductions(*deductions).len(),
    ensures
        match part {
            Some((digit, base, conflicts)) => {
                &&& fish_part(found_deductions(*deductions)[index as int]) == Some(
                    (digit, base@, conflicts@),
                )
                &&& 1 <= digit <= 9
                &&& all_below(base@, 27)
                &&& all_candidates(conflicts@)
                &&& all_of_digit(conflicts@, digit)
            },
            None => fish_part(found_deductions(*deductions)[index as int]) is None,
        },
{
    match deductions.get(index) {
        Some(Found::Fish { digit, base, conflicts, .. }) => Some((
            digit.get() as usize,
            base.into_iter().map(|h| h.as_index()).collect(),
            conflicts.iter().map(|c| Candidate { cell: c.cell.as_index(), digit: c.digit.get() as usize }).collect(),
        )),
        _ => None,
    }
}

/// The deduction at a place among those that the solver made.
fn deduction_at(deductions: &Deductions, index: usize) -> (deduction: Deduction)
    requires
        index < found_deductions(*deductions).len(),
    ensures
        deduction@ == found_deductions(*deductions)[index as int],
        deduction@.wf(),
{
    let ghost model: DeductionView = found_deductions(*deductions)[index as int];
    let number: usize = technique_at(deductions, index);
    proof {
        model.technique().lemma_index_round_trip();
    }
    let technique: Technique = match Technique::from_index(number) {
        Some(technique) => technique,
        None => unreached(),
    };
    if let Some(c) = single_at(deductions, index) {
        if number == 0 {
            Deduction::NakedSingle(c)
        } else {
            Deduction::HiddenSingle(c)
        }
    } else if let Some((digit, conflicts)) = locked_at(deductions, index) {
        Deduction::LockedCandidates { digit, conflicts }
    } else if let Some((house, positions, digits, conflicts)) = subset_at(deductions, index) {
        Deduction::Subsets { technique, house, positions, digits, conflicts }
    } else if let Some((digit, lines, positions, conflicts)) = basic_fish_at(deductions, index) {
        Deduction::BasicFish { technique, digit, lines, positions, conflicts }
    } else if let Some((digit, base, conflicts)) = fish_at(deductions, index) {
        Deduction::Fish { technique, digit, base, conflicts }
    } else {
        Deduction::Other { technique }
    }
}

/// The deductions that the solver made, as deductions of this library.
fn collect_deductions(deductions: &Deductions) -> (collected: Vec<Deduction>)
    ensures
        views(collected@) == found_deductions(*deductions),
        all_wf(views(collected@)),
{
    let count: usize = deduction_count(deductions);
    let mut collected: Vec<Deduction> = Vec::new();
    let mut i: usize = 0;
    while i < count
        invariant
            i <= count,
            count == found_deductions(*deductions).len(),
            collected@.len() == i,
            forall|j: int|
                0 <= j < i ==> (#[trigger] collected@[j])@ == found_deductions(*deductions)[j]
                    && collected@[j]@.wf(),
        decreases count - i,
    {
        let deduction: Deduction = deduction_at(deductions, i);
        collected.push(deduction);
        i = i + 1;
    }
    assert(views(collected@) =~= found_deductions(*deductions));
    collected
}

/// The strategies of the `sudoku` crate for the given techniques.
fn to_strategies(techniques: &Vec<Technique>) -> (strategies: Vec<Strategy>)
    ensures
        techniques_of(strategies@) == techniques@,
        strategies@.len() == techniques@.len(),
        forall|j: int|
            0 <= j < strategies@.len() ==> strategy_technique(#[trigger] strategies@[j])
                == techniques@[j],
{
    let mut strategies: Vec<Strategy> = Vec::new();
    let mut i: usize = 0;
    while i < techniques.len()
        invariant
            i <= techniques.len(),
            strategies@.len() == i,
            forall|j: int|
                0 <= j < i ==> strategy_technique(#[trigger] strategies@[j]) == techniques@[j],
        decreases techniques.len() - i,
    {
        let strategy: Strategy = to_strategy(techniques[i]);
        strategies.push(strategy);
        i = i + 1;
    }
    assert(techniques_of(strategies@) =~= techniques@);
    strategies
}

/// What the solver makes of a board with the battery of techniques.
pub open spec fn battery_deductions(cells: Seq<u8>) -> Option<Seq<DeductionView>> {
    solver_deductions(cells, registry())
}

/// The deductions that solve a board with the battery of techniques, or
/// `None` where the battery does not solve it.
pub fn solve(board: &Sudoku) -> (solved: Option<Vec<Deduction>>)
    ensures
        match solved {
            Some(deductions) => battery_deductions(board_cells(*board)) == Some(
                views(deductions@),
            ) && all_wf(views(deductions@)),
            None => battery_deductions(board_cells(*board)) is None,
        },
{
    let battery: Vec<Technique> = strategies();
    let battery_strategies: Vec<Strategy> = to_strategies(&battery);
    proof {
        lemma_registry_is_without_rectangles();
        assert forall|i: int| 0 <= i < battery_strategies@.len() implies strategy_technique(
            #[trigger] battery_strategies@[i],
        ) != Technique::AvoidableRectangles by {
            assert(strategy_technique(battery_strategies@[i]) == registry()[i]);
            assert(registry()[i] != Technique::AvoidableRectangles);
        }
    }
    match solve_board(board, &battery_strategies) {
        Some(found) => Some(collect_deductions(&found)),
        None => None,
    }
}

/// The deductions that solve the board that a line of text gives.
pub fn get_deductions(grid: &str) -> (found: Result<Vec<Deduction>, GridError>)
    ensures
        match found {
            Ok(deductions) => {
                &&& line_cells(grid@) matches Some(cells)
                &&& battery_deductions(cells) == Some(views(deductions@))
                &&& all_wf(views(deductions@))
            },
            Err(GridError::Invalid) => line_cells(grid@) is None,
            Err(GridError::Unsolved) => {
                &&& line_cells(grid@) matches Some(cells)
                &&& battery_deductions(cells) is None
            },
        },
{
    match parse_line(grid) {
        Ok(board) => match solve(&board) {
            Some(deductions) => Ok(deductions),
            None => Err(GridError::Unsolved),
        },
        Err(_) => Err(GridError::Invalid),
    }
}

} // verus!
