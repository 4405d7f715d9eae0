//! Hints: the choice of the first deduction that tells the player something
//! new, and its shape as a tip.

use vstd::prelude::*;
use crate::deduction::{
    all_below, all_candidates, all_digits, all_wf, cell_at, house_cell, views, Candidate,
    Deduction, DeductionView,
};
use crate::technique::{is_label, lemma_name_is_no_label, strategy_to_name, Technique};

verus! {

/// A digit to place in a cell.
#[derive(Clone, Copy, PartialEq, Eq, Structural, Debug)]
pub struct Single {
    pub cell: usize,
    pub digit: usize,
}

/// A locked candidate: the digit, and the cells that lose it.
#[derive(Clone, Debug, PartialEq, Eq)]
pub struct LockedCandidate {
    pub digit: usize,
    pub conflict_cells: Vec<usize>,
}

/// A subset: its cells and digits, and the candidates that it removes, as
/// two lists of equal length, the cell and the digit of each.
#[derive(Clone, Debug, PartialEq, Eq)]
pub struct Subset {
    pub positions: Vec<usize>,
    pub digits: Vec<usize>,
    pub conflict_cells: Vec<usize>,
    pub conflict_digits: Vec<usize>,
}

/// A fish: whether it lies in rows, its digit and cells, and the
/// candidates that it removes, as two lists of equal length.
#[derive(Clone, Debug, PartialEq, Eq)]
pub struct Fish {
    pub is_row: bool,
    pub digit: usize,
    pub positions: Vec<usize>,
    pub conflict_cells: Vec<usize>,
    pub conflict_digits: Vec<usize>,
}

/// A hint: the name of a strategy and at most one payload.
///
/// Without a payload the name is `"Unknown"`, `"Unsolvable"` or
/// `"Invalid"`, and there is no step to show.
#[derive(Clone, Debug, PartialEq, Eq)]
pub struct Tip {
    pub strategy: String,
    pub single: Option<Single>,
    pub locked_candidate: Option<LockedCandidate>,
    pub subset: Option<Subset>,
    pub fish: Option<Fish>,
}

/// A locked candidate as a mathematical value.
pub struct LockedCandidateView {
    pub digit: usize,
    pub conflict_cells: Seq<usize>,
}

/// A subset as a mathematical value.
pub struct SubsetView {
    pub positions: Seq<usize>,
    pub digits: Seq<usize>,
    pub conflict_cells: Seq<usize>,
    pub conflict_digits: Seq<usize>,
}

/// A fish as a mathematical value.
pub struct FishView {
    pub is_row: bool,
    pub digit: usize,
    pub positions: Seq<usize>,
    pub conflict_cells: Seq<usize>,
    pub conflict_digits: Seq<usize>,
}

/// A tip as a mathematical value.
pub struct TipView {
    pub strategy: Seq<char>,
    pub single: Option<Single>,
    pub locked_candidate: Option<LockedCandidateView>,
    pub subset: Option<SubsetView>,
    pub fish: Option<FishView>,
}

impl View for LockedCandidate {
    type V = LockedCandidateView;

    open spec fn view(&self) -> LockedCandidateView {
        LockedCandidateView { digit: self.digit, conflict_cells: self.conflict_cells@ }
    }
}

impl View for Subset {
    type V = SubsetView;

    open spec fn view(&self) -> SubsetView {
        SubsetView {
            positions: self.positions@,
            digits: self.digits@,
            conflict_cells: self.conflict_cells@,
            conflict_digits: self.conflict_digits@,
        }
    }
}

impl View for Fish {
    type V = FishView;

    open spec fn view(&self) -> FishView {
        FishView {
            is_row: self.is_row,
            digit: self.digit,
            positions: self.positions@,
            conflict_cells: self.conflict_cells@,
            conflict_digits: self.conflict_digits@,
        }
    }
}

impl View for Tip {
    type V = TipView;

    open spec fn view(&self) -> TipView {
        TipView {
            strategy: self.strategy@,
            single: self.single,
            locked_candidate: match self.locked_candidate {
                Some(l) => Some(l@),
                None => None,
            },
            subset: match self.subset {
                Some(s) => Some(s@),
                None => None,
            },
            fish: match self.fish {
                Some(f) => Some(f@),
                None => None,
            },
        }
    }
}

impl TipView {
    /// The tip without a payload.
    pub open spec fn terminal(strategy: Seq<char>) -> TipView {
        TipView { strategy, single: None, locked_candidate: None, subset: None, fish: None }
    }

    /// The tip that places a digit.
    pub open spec fn of_single(strategy: Seq<char>, single: Single) -> TipView {
        TipView { single: Some(single), ..TipView::terminal(strategy) }
    }

    /// The tip that shows a locked candidate.
    pub open spec fn of_locked_candidate(
        strategy: Seq<char>,
        locked_candidate: LockedCandidateView,
    ) -> TipView {
        TipView { locked_candidate: Some(locked_candidate), ..TipView::terminal(strategy) }
    }

    /// The tip that shows a subset.
    pub open spec fn of_subset(strategy: Seq<char>, subset: SubsetView) -> TipView {
        TipView { subset: Some(subset), ..TipView::terminal(strategy) }
    }

    /// The tip that shows a fish.
    pub open spec fn of_fish(strategy: Seq<char>, fish: FishView) -> TipView {
        TipView { fish: Some(fish), ..TipView::terminal(strategy) }
    }

    /// Whether the tip can be shown on a board: its cells are below 81, its
    /// digits are from 1 to 9, and where it removes candidates it names at
    /// least one, each by its cell and its digit.
    pub open spec fn in_range(self) -> bool {
        &&& self.single matches Some(single) ==> single.cell < 81 && 1 <= single.digit <= 9
        &&& self.locked_candidate matches Some(locked) ==> {
            &&& 1 <= locked.digit <= 9
            &&& locked.conflict_cells.len() > 0
            &&& all_below(locked.conflict_cells, 81)
        }
        &&& self.subset matches Some(subset) ==> {
            &&& all_below(subset.positions, 81)
            &&& all_digits(subset.digits)
            &&& subset.conflict_cells.len() > 0
            &&& subset.conflict_cells.len() == subset.conflict_digits.len()
            &&& all_below(subset.conflict_cells, 81)
            &&& all_digits(subset.conflict_digits)
        }
        &&& self.fish matches Some(fish) ==> {
            &&& 1 <= fish.digit <= 9
            &&& all_below(fish.positions, 81)
            &&& fish.conflict_cells.len() > 0
            &&& fish.conflict_cells.len() == fish.conflict_digits.len()
            &&& all_below(fish.conflict_cells, 81)
            &&& all_digits(fish.conflict_digits)
        }
    }

    /// The candidates that the tip tells the player to remove: each
    /// conflict cell with its digit, which for a locked candidate is the
    /// one digit of the payload. None for a tip that places a digit or
    /// has no payload.
    pub open spec fn conflicts(self) -> Seq<Candidate> {
        match self.locked_candidate {
            Some(locked) => locked.conflict_cells.map_values(
                |cell: usize| Candidate { cell, digit: locked.digit },
            ),
            None => match self.subset {
                Some(subset) => paired(subset.conflict_cells, subset.conflict_digits),
                None => match self.fish {
                    Some(fish) => paired(fish.conflict_cells, fish.conflict_digits),
                    None => Seq::empty(),
                },
            },
        }
    }

    /// Whether the tip tells the player something new: each candidate
    /// that it removes is one that the marks still hold as possible.
    pub open spec fn is_open_in(self, marks: Seq<i32>) -> bool {
        forall|i: int|
            0 <= i < self.conflicts().len() ==> mark_allows(
                marks[(#[trigger] self.conflicts()[i]).cell as int],
                self.conflicts()[i].digit,
            )
    }

    /// Whether the payload is of the kind that the strategy's name asks
    /// for: a placement for a single, a locked candidate, a subset for a
    /// pair, triple or quad, a fish for a fish; and no payload exactly
    /// under one of the three names `"Unknown"`, `"Unsolvable"` and
    /// `"Invalid"`.
    pub open spec fn name_fits(self) -> bool {
        &&& self.single is Some ==> self.strategy == Technique::NakedSingles.name()
            || self.strategy == Technique::HiddenSingles.name()
        &&& self.locked_candidate is Some ==> self.strategy == Technique::LockedCandidates.name()
        &&& self.subset is Some ==> exists|t: Technique|
            t.is_subset() && self.strategy == #[trigger] t.name()
        &&& self.fish is Some ==> exists|t: Technique|
            (t.is_basic_fish() || t.is_mutant_fish()) && self.strategy == #[trigger] t.name()
        &&& self.payloads() == 0 <==> is_label(self.strategy)
    }

    /// How many payloads the tip holds.
    pub open spec fn payloads(self) -> nat {
        let single: nat = if self.single is Some { 1 } else { 0 };
        let locked: nat = if self.locked_candidate is Some { 1 } else { 0 };
        let subset: nat = if self.subset is Some { 1 } else { 0 };
        let fish: nat = if self.fish is Some { 1 } else { 0 };
        single + locked + subset + fish
    }
}

impl Tip {
    /// The tip without a payload.
    pub fn terminal(strategy: String) -> (tip: Tip)
        ensures
            tip@ == TipView::terminal(strategy@),
    {
        Tip { strategy, single: None, locked_candidate: None, subset: None, fish: None }
    }

    /// The tip that places a digit.
    pub fn of_single(strategy: String, single: Single) -> (tip: Tip)
        ensures
            tip@ == TipView::of_single(strategy@, single),
    {
        Tip { strategy, single: Some(single), locked_candidate: None, subset: None, fish: None }
    }

    /// The tip that shows a locked candidate.
    pub fn of_locked_candidate(strategy: String, locked_candidate: LockedCandidate) -> (tip: Tip)
        ensures
            tip@ == TipView::of_locked_candidate(strategy@, locked_candidate@),
    {
        Tip {
            strategy,
            single: None,
            locked_candidate: Some(locked_candidate),
            subset: None,
            fish: None,
        }
    }

    /// The tip that shows a subset.
    pub fn of_subset(strategy: String, subset: Subset) -> (tip: Tip)
        ensures
            tip@ == TipView::of_subset(strategy@, subset@),
    {
        Tip { strategy, single: None, locked_candidate: None, subset: Some(subset), fish: None }
    }

    /// The tip that shows a fish.
    pub fn of_fish(strategy: String, fish: Fish) -> (tip: Tip)
        ensures
            tip@ == TipView::of_fish(strategy@, fish@),
    {
        Tip { strategy, single: None, locked_candidate: None, subset: None, fish: Some(fish) }
    }
}

/// The candidates of the given cells and digits, pair by pair.
pub open spec fn paired(cells: Seq<usize>, digits: Seq<usize>) -> Seq<Candidate> {
    Seq::new(cells.len(), |i: int| Candidate { cell: cells[i], digit: digits[i] })
}

/// Whether a cell's mark still holds the digit as possible: bit 0 stands
/// for digit 1, bit 8 for digit 9.
pub open spec fn mark_allows(mark: i32, digit: usize) -> bool {
    mark & (1i32 << ((digit - 1) as usize)) != 0
}

/// The test that a candidate is still possible by the player's marks.
pub open spec fn still_open(marks: Seq<i32>) -> spec_fn(Candidate) -> bool {
    |c: Candidate| mark_allows(marks[c.cell as int], c.digit)
}

/// The conflicts that the player has not yet removed, in their order.
pub open spec fn open_conflicts(conflicts: Seq<Candidate>, marks: Seq<i32>) -> Seq<Candidate> {
    conflicts.filter(still_open(marks))
}

/// The cells of the candidates, in their order.
pub open spec fn cells_of(candidates: Seq<Candidate>) -> Seq<usize> {
    candidates.map_values(|c: Candidate| c.cell)
}

/// The digits of the candidates, in their order.
pub open spec fn digits_of(candidates: Seq<Candidate>) -> Seq<usize> {
    candidates.map_values(|c: Candidate| c.digit)
}

/// Keeps the conflicts that the player's marks still hold as possible.
pub fn conflicts_to_cells(conflicts: &Vec<Candidate>, marks: &Vec<i32>) -> (kept: Vec<Candidate>)
    requires
        marks.len() == 81,
        all_candidates(conflicts@),
    ensures
        kept@ == open_conflicts(conflicts@, marks@),
        all_candidates(kept@),
{
    let mut kept: Vec<Candidate> = Vec::new();
    let mut i: usize = 0;
    proof {
        conflicts@.take(0).lemma_filter_len(still_open(marks@));
    }
    while i < conflicts.len()
        invariant
            i <= conflicts.len(),
            marks.len() == 81,
            all_candidates(conflicts@),
            all_candidates(kept@),
            kept@ == conflicts@.take(i as int).filter(still_open(marks@)),
        decreases conflicts.len() - i,
    {
        let c: Candidate = conflicts[i];
        assert(c.wf());
        proof {
            assert(conflicts@.take(i + 1) =~= conflicts@.take(i as int).push(c));
            conflicts@.take(i as int).lemma_filter_push(c, still_open(marks@));
        }
        if marks[c.cell] & (1i32 << (c.digit - 1)) != 0 {
            kept.push(c);
        }
        i = i + 1;
    }
    assert(conflicts@.take(i as int) =~= conflicts@);
    kept
}

/// The cells of the candidates.
fn conflict_cells(candidates: &Vec<Candidate>) -> (cells: Vec<usize>)
    ensures
        cells@ == cells_of(candidates@),
{
    let mut cells: Vec<usize> = Vec::new();
    let mut i: usize = 0;
    while i < candidates.len()
        invariant
            i <= candidates.len(),
            cells@ == cells_of(candidates@.take(i as int)),
        decreases candidates.len() - i,
    {
        cells.push(candidates[i].cell);
        assert(cells@ =~= cells_of(candidates@.take(i + 1)));
        i = i + 1;
    }
    assert(candidates@.take(i as int) =~= candidates@);
    cells
}

/// The digits of the candidates.
fn conflict_digits(candidates: &Vec<Candidate>) -> (digits: Vec<usize>)
    ensures
        digits@ == digits_of(candidates@),
{
    let mut digits: Vec<usize> = Vec::new();
    let mut i: usize = 0;
    while i < candidates.len()
        invariant
            i <= candidates.len(),
            digits@ == digits_of(candidates@.take(i as int)),
        decreases candidates.len() - i,
    {
        digits.push(candidates[i].digit);
        assert(digits@ =~= digits_of(candidates@.take(i + 1)));
        i = i + 1;
    }
    assert(candidates@.take(i as int) =~= candidates@);
    digits
}

/// The cells at the given positions of a house, in the positions' order.
pub open spec fn subset_cells(house: usize, positions: Seq<usize>) -> Seq<usize> {
    positions.map_values(|p: usize| cell_at(house as int, p as int) as usize)
}

/// The cells of a fish in lines: for each line the cell at the position
/// that stands at the line's place in the list of positions.
pub open spec fn fish_line_cells(lines: Seq<usize>, positions: Seq<usize>) -> Seq<usize> {
    Seq::new(
        if lines.len() <= positions.len() {
            lines.len()
        } else {
            positions.len()
        },
        |k: int| cell_at(lines[k] as int, positions[k] as int) as usize,
    )
}

/// The cells of the base houses of a fish: the nine cells of the first
/// house, then those of the second, and so on.
pub open spec fn fish_base_cells(base: Seq<usize>) -> Seq<usize> {
    Seq::new(9 * base.len(), |k: int| cell_at(base[k / 9] as int, k % 9) as usize)
}

/// Whether the first of the base houses of a fish is a row or a column,
/// so that the fish can be told to lie in rows or in columns.
pub open spec fn starts_with_line(houses: Seq<usize>) -> bool {
    houses.len() > 0 && houses[0] < 18
}

/// Computes `subset_cells`.
fn cells_in_house(house: usize, positions: &Vec<usize>) -> (cells: Vec<usize>)
    requires
        house < 27,
        forall|i: int| 0 <= i < positions@.len() ==> #[trigger] positions@[i] < 9,
    ensures
        cells@ == subset_cells(house, positions@),
{
    let mut cells: Vec<usize> = Vec::new();
    let mut i: usize = 0;
    while i < positions.len()
        invariant
            i <= positions.len(),
            house < 27,
            forall|i: int| 0 <= i < positions@.len() ==> #[trigger] positions@[i] < 9,
            cells@ == subset_cells(house, positions@.take(i as int)),
        decreases positions.len() - i,
    {
        cells.push(house_cell(house, positions[i]));
        assert(cells@ =~= subset_cells(house, positions@.take(i + 1)));
        i = i + 1;
    }
    assert(positions@.take(i as int) =~= positions@);
    cells
}

/// Computes `fish_line_cells`.
fn cells_in_lines(lines: &Vec<usize>, positions: &Vec<usize>) -> (cells: Vec<usize>)
    requires
        forall|i: int| 0 <= i < lines@.len() ==> #[trigger] lines@[i] < 18,
        forall|i: int| 0 <= i < positions@.len() ==> #[trigger] positions@[i] < 9,
    ensures
        cells@ == fish_line_cells(lines@, positions@),
{
    let count: usize = if lines.len() <= positions.len() {
        lines.len()
    } else {
        positions.len()
    };
    let mut cells: Vec<usize> = Vec::new();
    let mut k: usize = 0;
    while k < count
        invariant
            k <= count,
            count <= lines.len(),
            count <= positions.len(),
            forall|i: int| 0 <= i < lines@.len() ==> #[trigger] lines@[i] < 18,
            forall|i: int| 0 <= i < positions@.len() ==> #[trigger] positions@[i] < 9,
            cells@.len() == k,
            forall|j: int|
                0 <= j < k ==> #[trigger] cells@[j] == cell_at(
                    lines@[j] as int,
                    positions@[j] as int,
                ),
        decreases count - k,
    {
        cells.push(house_cell(lines[k], positions[k]));
        k = k + 1;
    }
    assert(cells@ =~= fish_line_cells(lines@, positions@));
    cells
}

/// Computes `fish_base_cells`.
fn cells_in_base(base: &Vec<usize>) -> (cells: Vec<usize>)
    requires
        forall|i: int| 0 <= i < base@.len() ==> #[trigger] base@[i] < 27,
    ensures
        cells@ == fish_base_cells(base@),
{
    let mut cells: Vec<usize> = Vec::new();
    let mut h: usize = 0;
    while h < base.len()
        invariant
            h <= base.len(),
            forall|i: int| 0 <= i < base@.len() ==> #[trigger] base@[i] < 27,
            cells@.len() == 9 * h,
            forall|j: int|
                0 <= j < 9 * h ==> #[trigger] cells@[j] == cell_at(base@[j / 9] as int, j % 9),
        decreases base.len() - h,
    {
        let house: usize = base[h];
        let mut p: usize = 0;
        while p < 9
            invariant
                p <= 9,
                h < base.len(),
                house == base@[h as int],
                house < 27,
                cells@.len() == 9 * h + p,
                forall|j: int|
                    0 <= j < 9 * h + p ==> #[trigger] cells@[j] == cell_at(
                        base@[j / 9] as int,
                        j % 9,
                    ),
            decreases 9 - p,
        {
            cells.push(house_cell(house, p));
            p = p + 1;
        }
        h = h + 1;
    }
    assert(cells@ =~= fish_base_cells(base@));
    cells
}

/// The tip that a deduction gives a player with the given marks, or
/// `None` where the deduction is passed over.
///
/// A single is always shown. A deduction that removes candidates is shown
/// with those of its conflicts that the marks still hold as possible, and
/// passed over if there are none. A fish lies in rows or in columns as
/// its first line or house does; a fish in houses is also passed over
/// where it has no first house or that house is a block. A deduction of
/// another shape is passed over.
pub open spec fn tip_of(deduction: DeductionView, marks: Seq<i32>) -> Option<TipView> {
    match deduction {
        DeductionView::NakedSingle(c) => Some(
            TipView::of_single("NakedSingles"@, Single { cell: c.cell, digit: c.digit }),
        ),
        DeductionView::HiddenSingle(c) => Some(
            TipView::of_single("HiddenSingles"@, Single { cell: c.cell, digit: c.digit }),
        ),
        DeductionView::LockedCandidates { digit, conflicts } => {
            let open = open_conflicts(conflicts, marks);
            if open.len() == 0 {
                None
            } else {
                Some(
                    TipView::of_locked_candidate(
                        "LockedCandidates"@,
                        LockedCandidateView { digit, conflict_cells: cells_of(open) },
                    ),
                )
            }
        },
        DeductionView::Subsets { technique, house, positions, digits, conflicts } => {
            let open = open_conflicts(conflicts, marks);
            if open.len() == 0 {
                None
            } else {
                Some(
                    TipView::of_subset(
                        technique.name(),
                        SubsetView {
                            positions: subset_cells(house, positions),
                            digits,
                            conflict_cells: cells_of(open),
                            conflict_digits: digits_of(open),
                        },
                    ),
                )
            }
        },
        DeductionView::BasicFish { technique, digit, lines, positions, conflicts } => {
            let open = open_conflicts(conflicts, marks);
            if open.len() == 0 {
                None
            } else {
                Some(
                    TipView::of_fish(
                        technique.name(),
                        FishView {
                            is_row: lines[0] < 9,
                            digit,
                            positions: fish_line_cells(lines, positions),
                            conflict_cells: cells_of(open),
                            conflict_digits: digits_of(open),
                        },
                    ),
                )
            }
        },
        DeductionView::Fish { technique, digit, base, conflicts } => {
            let open = open_conflicts(conflicts, marks);
            if open.len() == 0 || !starts_with_line(base) {
                None
            } else {
                Some(
                    TipView::of_fish(
                        technique.name(),
                        FishView {
                            is_row: base[0] < 9,
                            digit,
                            positions: fish_base_cells(base),
                            conflict_cells: cells_of(open),
                            conflict_digits: digits_of(open),
                        },
                    ),
                )
            }
        },
        DeductionView::Other { .. } => None,
    }
}

/// The tip for the first deduction of the sequence that is not passed
/// over, or the tip `"Unknown"` without payload if all are.
pub open spec fn first_tip(deductions: Seq<DeductionView>, marks: Seq<i32>) -> TipView
    decreases deductions.len(),
{
    if deductions.len() == 0 {
        TipView::terminal("Unknown"@)
    } else {
        match tip_of(deductions.first(), marks) {
            Some(tip) => tip,
            None => first_tip(deductions.drop_first(), marks),
        }
    }
}

/// A copy of the items.
fn copy_of(items: &Vec<usize>) -> (copy: Vec<usize>)
    ensures
        copy@ == items@,
{
    let mut copy: Vec<usize> = Vec::new();
    let mut i: usize = 0;
    while i < items.len()
        invariant
            i <= items.len(),
            copy@ == items@.take(i as int),
        decreases items.len() - i,
    {
        copy.push(items[i]);
        assert(copy@ =~= items@.take(i + 1));
        i = i + 1;
    }
    assert(items@.take(i as int) =~= items@);
    copy
}

/// The tip that a deduction gives a player with the given marks, if it
/// gives one.
pub fn tip_for_deduction(deduction: &Deduction, marks: &Vec<i32>) -> (tip: Option<Tip>)
    requires
        marks.len() == 81,
        deduction@.wf(),
    ensures
        match tip {
            Some(t) => {
                &&& tip_of(deduction@, marks@) == Some(t@)
                &&& t@.payloads() == 1
                &&& t@.in_range()
                &&& t@.name_fits()
                &&& t@.conflicts() == open_conflicts(deduction@.conflicts(), marks@)
                &&& t@.is_open_in(marks@)
            },
            None => tip_of(deduction@, marks@) is None,
        },
{
    proof {
        lemma_tip_of_has_one_payload(deduction@, marks@);
        lemma_tip_of_is_in_range(deduction@, marks@);
        lemma_tip_of_fits_its_name(deduction@, marks@);
        lemma_tip_of_removes_the_open_conflicts(deduction@, marks@);
    }
    match deduction {
        Deduction::NakedSingle(c) => Some(
            Tip::of_single("NakedSingles".to_owned(), Single { cell: c.cell, digit: c.digit }),
        ),
        Deduction::HiddenSingle(c) => Some(
            Tip::of_single("HiddenSingles".to_owned(), Single { cell: c.cell, digit: c.digit }),
        ),
        Deduction::LockedCandidates { digit, conflicts } => {
            let open: Vec<Candidate> = conflicts_to_cells(conflicts, marks);
            if open.len() == 0 {
                None
            } else {
                Some(
                    Tip::of_locked_candidate(
                        "LockedCandidates".to_owned(),
                        LockedCandidate { digit: *digit, conflict_cells: conflict_cells(&open) },
                    ),
                )
            }
        },
        Deduction::Subsets { technique, house, positions, digits, conflicts } => {
            let open: Vec<Candidate> = conflicts_to_cells(conflicts, marks);
            if open.len() == 0 {
                None
            } else {
                Some(
                    Tip::of_subset(
                        strategy_to_name(*technique),
                        Subset {
                            positions: cells_in_house(*house, positions),
                            digits: copy_of(digits),
                            conflict_cells: conflict_cells(&open),
                            conflict_digits: conflict_digits(&open),
                        },
                    ),
                )
            }
        },
        Deduction::BasicFish { technique, digit, lines, positions, conflicts } => {
            let open: Vec<Candidate> = conflicts_to_cells(conflicts, marks);
            if open.len() == 0 {
                None
            } else {
                Some(
                    Tip::of_fish(
                        strategy_to_name(*technique),
                        Fish {
                            is_row: lines[0] < 9,
                            digit: *digit,
                            positions: cells_in_lines(lines, positions),
                            conflict_cells: conflict_cells(&open),
                            conflict_digits: conflict_digits(&open),
                        },
                    ),
                )
            }
        },
        Deduction::Fish { technique, digit, base, conflicts } => {
            let open: Vec<Candidate> = conflicts_to_cells(conflicts, marks);
            if open.len() == 0 || base.len() == 0 || base[0] >= 18 {
                None
            } else {
                Some(
                    Tip::of_fish(
                        strategy_to_name(*technique),
                        Fish {
                            is_row: base[0] < 9,
                            digit: *digit,
                            positions: cells_in_base(base),
                            conflict_cells: conflict_cells(&open),
                            conflict_digits: conflict_digits(&open),
                        },
                    ),
                )
            }
        },
        Deduction::Other { .. } => None,
    }
}

/// The tip for the first of the deductions that tells the player
/// something new, or the tip `"Unknown"` if none does.
pub fn choose_tip(deductions: &Vec<Deduction>, marks: &Vec<i32>) -> (tip: Tip)
    requires
        marks.len() == 81,
        all_wf(views(deductions@)),
    ensures
        tip@ == first_tip(views(deductions@), marks@),
        tip@.payloads() <= 1,
        tip@.in_range(),
        tip@.name_fits(),
        tip@.is_open_in(marks@),
{
    let ghost all: Seq<DeductionView> = views(deductions@);
    let mut i: usize = 0;
    assert(all.skip(0) =~= all);
    while i < deductions.len()
        invariant
            i <= deductions.len(),
            marks.len() == 81,
            all == views(deductions@),
            all_wf(all),
            first_tip(all, marks@) == first_tip(all.skip(i as int), marks@),
        decreases deductions.len() - i,
    {
        proof {
            assert(all.skip(i as int).first() == deductions@[i as int]@);
            assert(all.skip(i as int).drop_first() =~= all.skip(i + 1));
            assert(all[i as int].wf());
        }
        match tip_for_deduction(&deductions[i], marks) {
            Some(tip) => {
                return tip;
            },
            None => {},
        }
        i = i + 1;
    }
    assert(all.skip(i as int) =~= Seq::<DeductionView>::empty());
    Tip::terminal("Unknown".to_owned())
}

/// A tip that a deduction gives holds exactly one payload.
pub proof fn lemma_tip_of_has_one_payload(deduction: DeductionView, marks: Seq<i32>)
    ensures
        tip_of(deduction, marks) matches Some(tip) ==> tip.payloads() == 1,
{
}

/// The conflicts that are still open are conflicts of the deduction.
pub proof fn lemma_open_conflicts_are_candidates(conflicts: Seq<Candidate>, marks: Seq<i32>)
    requires
        all_candidates(conflicts),
    ensures
        all_candidates(open_conflicts(conflicts, marks)),
{
    let open: Seq<Candidate> = open_conflicts(conflicts, marks);
    assert forall|i: int| 0 <= i < open.len() implies (#[trigger] open[i]).wf() by {
        assert(open.contains(open[i]));
        conflicts.lemma_filter_contains_rev(still_open(marks), open[i]);
        let j: int = choose|j: int| 0 <= j < conflicts.len() && conflicts[j] == open[i];
        assert(conflicts[j].wf());
    }
}

/// The cell at a position of a house is on the board.
pub proof fn lemma_cell_at_is_on_the_board(house: int, pos: int)
    requires
        0 <= house < 27,
        0 <= pos < 9,
    ensures
        0 <= cell_at(house, pos) < 81,
{
}

/// A tip that a deduction in range gives can be shown on a board.
pub proof fn lemma_tip_of_is_in_range(deduction: DeductionView, marks: Seq<i32>)
    requires
        deduction.wf(),
    ensures
        tip_of(deduction, marks) matches Some(tip) ==> tip.in_range(),
{
    let open: Seq<Candidate> = open_conflicts(deduction.conflicts(), marks);
    if !deduction.is_single() && !(deduction is Other) {
        lemma_open_conflicts_are_candidates(deduction.conflicts(), marks);
        assert forall|i: int| 0 <= i < open.len() implies #[trigger] cells_of(open)[i] < 81 && 1
            <= #[trigger] digits_of(open)[i] <= 9 by {
            assert(open[i].wf());
        }
    }
    match deduction {
        DeductionView::Subsets { house, positions, .. } => {
            assert forall|i: int| 0 <= i < positions.len() implies #[trigger] subset_cells(
                house,
                positions,
            )[i] < 81 by {
                lemma_cell_at_is_on_the_board(house as int, positions[i] as int);
            }
        },
        DeductionView::BasicFish { lines, positions, .. } => {
            let cells: Seq<usize> = fish_line_cells(lines, positions);
            assert forall|i: int| 0 <= i < cells.len() implies #[trigger] cells[i] < 81 by {
                lemma_cell_at_is_on_the_board(lines[i] as int, positions[i] as int);
            }
        },
        DeductionView::Fish { base, .. } => {
            let cells: Seq<usize> = fish_base_cells(base);
            assert forall|i: int| 0 <= i < cells.len() implies #[trigger] cells[i] < 81 by {
                lemma_cell_at_is_on_the_board(base[i / 9] as int, i % 9);
            }
        },
        _ => {},
    }
}

/// A tip that a deduction of a solver gives has the payload that its
/// name asks for.
pub proof fn lemma_tip_of_fits_its_name(deduction: DeductionView, marks: Seq<i32>)
    requires
        deduction.wf(),
    ensures
        tip_of(deduction, marks) matches Some(tip) ==> tip.name_fits() && tip.strategy
            == deduction.technique().name(),
{
    lemma_name_is_no_label(deduction.technique());
}

/// A tip that a deduction of a solver gives removes those of the
/// deduction's conflicts that the marks still hold as possible, in their
/// order, and so tells the player something new.
pub proof fn lemma_tip_of_removes_the_open_conflicts(deduction: DeductionView, marks: Seq<i32>)
    requires
        deduction.wf(),
    ensures
        tip_of(deduction, marks) matches Some(tip) ==> tip.conflicts() == open_conflicts(
            deduction.conflicts(),
            marks,
        ) && tip.is_open_in(marks),
{
    let conflicts: Seq<Candidate> = deduction.conflicts();
    let open: Seq<Candidate> = open_conflicts(conflicts, marks);
    if let Some(tip) = tip_of(deduction, marks) {
        if deduction.is_single() {
            conflicts.lemma_filter_len(still_open(marks));
            assert(tip.conflicts() =~= open);
        } else {
            assert forall|i: int| 0 <= i < open.len() implies conflicts.contains(
                #[trigger] open[i],
            ) by {
                assert(open.contains(open[i]));
                conflicts.lemma_filter_contains_rev(still_open(marks), open[i]);
            }
            if let DeductionView::LockedCandidates { digit, .. } = deduction {
                assert forall|i: int| 0 <= i < open.len() implies (#[trigger] open[i]).digit
                    == digit by {
                    let j: int = choose|j: int| 0 <= j < conflicts.len() && conflicts[j] == open[i];
                    assert(conflicts[j].digit == digit);
                }
            }
            assert(tip.conflicts() =~= open);
        }
        assert forall|i: int| 0 <= i < open.len() implies still_open(marks)(#[trigger] open[i]) by {
            conflicts.lemma_filter_pred(still_open(marks), i);
        }
    }
}

/// The chosen tip holds one payload, or none: then it is the tip
/// `"Unknown"`.
pub proof fn lemma_first_tip_has_at_most_one_payload(
    deductions: Seq<DeductionView>,
    marks: Seq<i32>,
)
    ensures
        first_tip(deductions, marks).payloads() <= 1,
        first_tip(deductions, marks).payloads() == 0 ==> first_tip(deductions, marks)
            == TipView::terminal("Unknown"@),
    decreases deductions.len(),
{
    if deductions.len() > 0 {
        lemma_tip_of_has_one_payload(deductions.first(), marks);
        lemma_first_tip_has_at_most_one_payload(deductions.drop_first(), marks);
    }
}

/// The tip chosen among deductions of a solver can be shown on a board,
/// has the payload that its name asks for, and tells the player
/// something new.
pub proof fn lemma_first_tip_is_in_range(deductions: Seq<DeductionView>, marks: Seq<i32>)
    requires
        all_wf(deductions),
    ensures
        first_tip(deductions, marks).in_range(),
        first_tip(deductions, marks).name_fits(),
        first_tip(deductions, marks).is_open_in(marks),
    decreases deductions.len(),
{
    if deductions.len() > 0 {
        assert(deductions[0].wf());
        lemma_tip_of_is_in_range(deductions.first(), marks);
        lemma_tip_of_fits_its_name(deductions.first(), marks);
        lemma_tip_of_removes_the_open_conflicts(deductions.first(), marks);
        let rest: Seq<DeductionView> = deductions.drop_first();
        assert forall|i: int| 0 <= i < rest.len() implies (#[trigger] rest[i]).wf() by {
            assert(rest[i] == deductions[i + 1]);
        }
        lemma_first_tip_is_in_range(rest, marks);
    }
}

/// The chosen tip is that of the first deduction that gives one: where
/// the deduction at `at` gives a tip and none before it does, that tip is
/// chosen; where no deduction gives a tip, the tip is `"Unknown"`.
pub proof fn lemma_first_tip_is_the_first_given(
    deductions: Seq<DeductionView>,
    marks: Seq<i32>,
    at: int,
)
    requires
        0 <= at <= deductions.len(),
        forall|i: int| 0 <= i < at ==> tip_of(#[trigger] deductions[i], marks) is None,
        at < deductions.len() ==> tip_of(deductions[at], marks) is Some,
    ensures
        first_tip(deductions, marks) == if at < deductions.len() {
            tip_of(deductions[at], marks).unwrap()
        } else {
            TipView::terminal("Unknown"@)
        },
    decreases at,
{
    if at > 0 {
        let rest: Seq<DeductionView> = deductions.drop_first();
        assert(tip_of(deductions[0], marks) is None);
        assert forall|i: int| 0 <= i < at - 1 implies tip_of(#[trigger] rest[i], marks) is None by {
            assert(rest[i] == deductions[i + 1]);
        }
        lemma_first_tip_is_the_first_given(rest, marks, at - 1);
    }
}

/// Whether a deduction tells the player something new: it places a
/// digit, or it removes a candidate that the marks still hold as possible.
pub open spec fn is_actionable(deduction: DeductionView, marks: Seq<i32>) -> bool {
    deduction.is_single() || open_conflicts(deduction.conflicts(), marks).len() > 0
}

/// A deduction gives a tip exactly where it tells the player something
/// new; for a fish in houses, where its first house is a row or a column.
pub proof fn lemma_tip_is_given_where_actionable(deduction: DeductionView, marks: Seq<i32>)
    requires
        deduction matches DeductionView::Fish { base, .. } ==> starts_with_line(base),
    ensures
        tip_of(deduction, marks) is Some <==> is_actionable(deduction, marks),
{
    if deduction is Other {
        deduction.conflicts().lemma_filter_len(still_open(marks));
    }
}

/// The first deduction that tells the player something new becomes the
/// hint, and nothing before or after it adds to it: where no deduction
/// before the one at `at` is actionable and that one is, the chosen tip
/// is that one's, under its technique's name, and removes those of its
/// conflicts that the marks still hold as possible, in their order.
pub proof fn lemma_first_actionable_is_the_hint(
    deductions: Seq<DeductionView>,
    marks: Seq<i32>,
    at: int,
)
    requires
        0 <= at < deductions.len(),
        deductions[at].wf(),
        deductions[at] matches DeductionView::Fish { base, .. } ==> starts_with_line(base),
        forall|i: int| 0 <= i < at ==> !is_actionable(#[trigger] deductions[i], marks),
        is_actionable(deductions[at], marks),
    ensures
        tip_of(deductions[at], marks) == Some(first_tip(deductions, marks)),
        first_tip(deductions, marks).strategy == deductions[at].technique().name(),
        first_tip(deductions, marks).payloads() == 1,
        first_tip(deductions, marks).conflicts() == open_conflicts(
            deductions[at].conflicts(),
            marks,
        ),
{
    assert forall|i: int| 0 <= i < at implies tip_of(#[trigger] deductions[i], marks) is None by {
        let d: DeductionView = deductions[i];
        assert(!is_actionable(d, marks));
        if d is Other {
        } else if d matches DeductionView::Fish { base, .. } && !starts_with_line(base) {
        } else {
            lemma_tip_is_given_where_actionable(d, marks);
        }
    }
    lemma_tip_is_given_where_actionable(deductions[at], marks);
    lemma_first_tip_is_the_first_given(deductions, marks, at);
    lemma_tip_of_has_one_payload(deductions[at], marks);
    lemma_tip_of_fits_its_name(deductions[at], marks);
    lemma_tip_of_removes_the_open_conflicts(deductions[at], marks);
}

/// Whether the player's marks already show everything that a deduction
/// removes: each of its conflicts is cleared in the marks.
pub open spec fn is_known(deduction: DeductionView, marks: Seq<i32>) -> bool {
    forall|i: int|
        0 <= i < deduction.conflicts().len() ==> !mark_allows(
            marks[(#[trigger] deduction.conflicts()[i]).cell as int],
            deduction.conflicts()[i].digit,
        )
}

/// A deduction that is no single and that the marks already show is
/// passed over.
pub proof fn lemma_known_is_passed_over(deduction: DeductionView, marks: Seq<i32>)
    requires
        !deduction.is_single(),
        is_known(deduction, marks),
    ensures
        tip_of(deduction, marks) is None,
{
    let conflicts: Seq<Candidate> = deduction.conflicts();
    let pred: spec_fn(Candidate) -> bool = still_open(marks);
    assert(conflicts.all(|c: Candidate| !pred(c))) by {
        assert forall|i: int| 0 <= i < conflicts.len() implies !pred(#[trigger] conflicts[i]) by {}
    }
    conflicts.lemma_all_neg_filter_empty(pred);
}

/// Where the marks already show the first `known` deductions, none of
/// them a single, the chosen tip is the one chosen among the deductions
/// after them: the first of those that is not passed over, or the tip
/// `"Unknown"`.
pub proof fn lemma_known_deductions_are_skipped(
    deductions: Seq<DeductionView>,
    marks: Seq<i32>,
    known: int,
)
    requires
        0 <= known <= deductions.len(),
        forall|i: int|
            0 <= i < known ==> !(#[trigger] deductions[i]).is_single() && is_known(
                deductions[i],
                marks,
            ),
    ensures
        first_tip(deductions, marks) == first_tip(deductions.skip(known), marks),
        known == deductions.len() ==> first_tip(deductions, marks) == TipView::terminal(
            "Unknown"@,
        ),
    decreases known,
{
    if known == 0 {
        assert(deductions.skip(0) =~= deductions);
    } else {
        let rest: Seq<DeductionView> = deductions.drop_first();
        assert(!deductions[0].is_single() && is_known(deductions[0], marks));
        lemma_known_is_passed_over(deductions.first(), marks);
        assert forall|i: int| 0 <= i < known - 1 implies !(#[trigger] rest[i]).is_single()
            && is_known(rest[i], marks) by {
            assert(rest[i] == deductions[i + 1]);
        }
        lemma_known_deductions_are_skipped(rest, marks, known - 1);
        assert(rest.skip(known - 1) =~= deductions.skip(known));
    }
    if known == deductions.len() {
        assert(deductions.skip(known) =~= Seq::<DeductionView>::empty());
    }
}

/// A single at the head of the deductions is the tip, whatever the marks.
pub proof fn lemma_leading_single_is_the_tip(deductions: Seq<DeductionView>, marks: Seq<i32>)
    requires
        deductions.len() > 0,
        deductions[0].is_single(),
    ensures
        first_tip(deductions, marks).single is Some,
        first_tip(deductions, marks).strategy == deductions[0].technique().name(),
{
}

} // verus!
