//! The hint for a board in progress.

use vstd::prelude::*;
use crate::board::{has_completion, has_solution, line_cells};
use crate::deduction::DeductionView;
use crate::solver::{battery_deductions, get_deductions};
use crate::tip::{
    choose_tip, first_tip, is_actionable, is_known, lemma_first_actionable_is_the_hint,
    lemma_known_deductions_are_skipped, open_conflicts, starts_with_line, tip_of, Tip, TipView,
};

verus! {

/// The tip for the board that a line of text gives and a player's marks.
///
/// Where the battery of techniques solves the board, the tip is chosen
/// among the solver's deductions. Else the tip has no payload and says
/// why: `"Invalid"` where the line gives no board, `"Unsolvable"` where
/// the board has no solution at all, `"Unknown"` where it has one that
/// the battery does not reach.
pub open spec fn tip_for_line(line: Seq<char>, marks: Seq<i32>) -> TipView {
    match line_cells(line) {
        None => TipView::terminal("Invalid"@),
        Some(cells) => match battery_deductions(cells) {
            Some(deductions) => first_tip(deductions, marks),
            None => if has_completion(cells) {
                TipView::terminal("Unknown"@)
            } else {
                TipView::terminal("Unsolvable"@)
            },
        },
    }
}

/// Gives the next hint for a board and the player's marks.
///
/// `marks` holds one mask for each of the 81 cells: bit 0 is set where
/// the player still holds digit 1 as possible there, up to bit 8 for
/// digit 9.
pub fn give_tip(grid: String, marks: Vec<i32>) -> (tip: Tip)
    requires
        marks.len() == 81,
    ensures
        tip@ == tip_for_line(grid@, marks@),
        tip@.payloads() <= 1,
        tip@.in_range(),
        tip@.name_fits(),
        tip@.is_open_in(marks@),
{
    match get_deductions(grid.as_str()) {
        Ok(deductions) => choose_tip(&deductions, &marks),
        Err(_) => match has_solution(grid.as_str()) {
            Ok(true) => Tip::terminal("Unknown".to_owned()),
            Ok(false) => Tip::terminal("Unsolvable".to_owned()),
            Err(_) => Tip::terminal("Invalid".to_owned()),
        },
    }
}

/// Where the battery solves the board and the player's marks already
/// show the first `known` of the solver's deductions, none of them a
/// single, the hint is the one chosen among the deductions after them,
/// and the tip `"Unknown"` if none is left.
pub proof fn lemma_hint_skips_known_deductions(
    line: Seq<char>,
    marks: Seq<i32>,
    deductions: Seq<DeductionView>,
    known: int,
)
    requires
        line_cells(line) matches Some(cells) && battery_deductions(cells) == Some(deductions),
        0 <= known <= deductions.len(),
        forall|i: int|
            0 <= i < known ==> !(#[trigger] deductions[i]).is_single() && is_known(
                deductions[i],
                marks,
            ),
    ensures
        tip_for_line(line, marks) == first_tip(deductions.skip(known), marks),
        known == deductions.len() ==> tip_for_line(line, marks) == TipView::terminal("Unknown"@),
{
    lemma_known_deductions_are_skipped(deductions, marks, known);
}

/// Where the battery solves the board, the first of the solver's
/// deductions that tells the player something new becomes the hint, and
/// nothing before or after it adds to it: the hint is that deduction's
/// tip, under its technique's name, and removes those of its conflicts
/// that the marks still hold as possible, in their order.
pub proof fn lemma_hint_is_the_first_actionable(
    line: Seq<char>,
    marks: Seq<i32>,
    deductions: Seq<DeductionView>,
    at: int,
)
    requires
        line_cells(line) matches Some(cells) && battery_deductions(cells) == Some(deductions),
        0 <= at < deductions.len(),
        deductions[at].wf(),
        deductions[at] matches DeductionView::Fish { base, .. } ==> starts_with_line(base),
        forall|i: int| 0 <= i < at ==> !is_actionable(#[trigger] deductions[i], marks),
        is_actionable(deductions[at], marks),
    ensures
        tip_of(deductions[at], marks) == Some(tip_for_line(line, marks)),
        tip_for_line(line, marks).strategy == deductions[at].technique().name(),
        tip_for_line(line, marks).payloads() == 1,
        tip_for_line(line, marks).conflicts() == open_conflicts(
            deductions[at].conflicts(),
            marks,
        ),
{
    lemma_first_actionable_is_the_hint(deductions, marks, at);
}

} // verus!
