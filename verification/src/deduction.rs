//! Deductions: single steps of logical progress on a board, as plain values.

use vstd::prelude::*;
use crate::technique::Technique;

verus! {

/// A digit in a cell: a placement, or a possibility that a deduction removes.
///
/// Cells are numbered 0 to 80, row by row; digits are 1 to 9.
#[derive(Clone, Copy, PartialEq, Eq, Structural, Debug, Hash)]
pub struct Candidate {
    pub cell: usize,
    pub digit: usize,
}

impl Candidate {
    /// The cell is on the board and the digit is one of 1 to 9.
    pub open spec fn wf(self) -> bool {
        self.cell < 81 && 1 <= self.digit <= 9
    }
}

/// The cell at a position of a house.
///
/// Houses 0 to 8 are the rows from the top, 9 to 17 the columns from the
/// left, 18 to 26 the blocks, row of blocks by row of blocks. A position
/// counts the cells of a house from 0 to 8: along a row or down a column,
/// and row by row within a block.
pub open spec fn cell_at(house: int, pos: int) -> int {
    if house < 9 {
        house * 9 + pos
    } else if house < 18 {
        pos * 9 + (house - 9)
    } else {
        ((house - 18) / 3 * 3 + pos / 3) * 9 + (house - 18) % 3 * 3 + pos % 3
    }
}

/// Computes `cell_at`.
pub fn house_cell(house: usize, pos: usize) -> (cell: usize)
    requires
        house < 27,
        pos < 9,
    ensures
        cell == cell_at(house as int, pos as int),
        cell < 81,
{
    if house < 9 {
        house * 9 + pos
    } else if house < 18 {
        pos * 9 + (house - 9)
    } else {
        let block: usize = house - 18;
        let row: usize = block / 3 * 3 + pos / 3;
        let col: usize = block % 3 * 3 + pos % 3;
        row * 9 + col
    }
}

/// One deduction.
///
/// A single places a digit. The others remove candidates, their
/// `conflicts`. Houses, lines and positions are numbered as `cell_at`
/// takes them; a line is a house below 18.
#[derive(Clone, Debug, PartialEq, Eq)]
pub enum Deduction {
    /// The cell has one candidate left.
    NakedSingle(Candidate),
    /// The digit has one cell left in a house.
    HiddenSingle(Candidate),
    /// A digit confined to one line within a block, or to one block within a line.
    LockedCandidates { digit: usize, conflicts: Vec<Candidate> },
    /// As many digits as cells, confined to those cells of a house.
    Subsets {
        technique: Technique,
        house: usize,
        positions: Vec<usize>,
        digits: Vec<usize>,
        conflicts: Vec<Candidate>,
    },
    /// A digit that has, in each of some lines, only the same few positions.
    BasicFish {
        technique: Technique,
        digit: usize,
        lines: Vec<usize>,
        positions: Vec<usize>,
        conflicts: Vec<Candidate>,
    },
    /// A digit confined, within the base houses, to the cover houses.
    Fish { technique: Technique, digit: usize, base: Vec<usize>, conflicts: Vec<Candidate> },
    /// A deduction of another shape.
    Other { technique: Technique },
}

/// A deduction as a mathematical value.
pub enum DeductionView {
    NakedSingle(Candidate),
    HiddenSingle(Candidate),
    LockedCandidates { digit: usize, conflicts: Seq<Candidate> },
    Subsets {
        technique: Technique,
        house: usize,
        positions: Seq<usize>,
        digits: Seq<usize>,
        conflicts: Seq<Candidate>,
    },
    BasicFish {
        technique: Technique,
        digit: usize,
        lines: Seq<usize>,
        positions: Seq<usize>,
        conflicts: Seq<Candidate>,
    },
    Fish { technique: Technique, digit: usize, base: Seq<usize>, conflicts: Seq<Candidate> },
    Other { technique: Technique },
}

impl View for Deduction {
    type V = DeductionView;

    open spec fn view(&self) -> DeductionView {
        match *self {
            Deduction::NakedSingle(c) => DeductionView::NakedSingle(c),
            Deduction::HiddenSingle(c) => DeductionView::HiddenSingle(c),
            Deduction::LockedCandidates { digit, conflicts } => DeductionView::LockedCandidates {
                digit,
                conflicts: conflicts@,
            },
            Deduction::Subsets {
                technique,
                house,
                positions,
                digits,
                conflicts,
            } => DeductionView::Subsets {
                technique,
                house,
                positions: positions@,
                digits: digits@,
                conflicts: conflicts@,
            },
            Deduction::BasicFish {
                technique,
                digit,
                lines,
                positions,
                conflicts,
            } => DeductionView::BasicFish {
                technique,
                digit,
                lines: lines@,
                positions: positions@,
                conflicts: conflicts@,
            },
            Deduction::Fish { technique, digit, base, conflicts } => DeductionView::Fish {
                technique,
                digit,
                base: base@,
                conflicts: conflicts@,
            },
            Deduction::Other { technique } => DeductionView::Other { technique },
        }
    }
}

/// Every member is below the bound.
pub open spec fn all_below(s: Seq<usize>, bound: int) -> bool {
    forall|i: int| 0 <= i < s.len() ==> #[trigger] s[i] < bound
}

/// Every member is a digit from 1 to 9.
pub open spec fn all_digits(s: Seq<usize>) -> bool {
    forall|i: int| 0 <= i < s.len() ==> 1 <= #[trigger] s[i] <= 9
}

/// Every candidate is on the board.
pub open spec fn all_candidates(s: Seq<Candidate>) -> bool {
    forall|i: int| 0 <= i < s.len() ==> (#[trigger] s[i]).wf()
}

/// Every candidate is one of the given digit.
pub open spec fn all_of_digit(s: Seq<Candidate>, digit: usize) -> bool {
    forall|i: int| 0 <= i < s.len() ==> (#[trigger] s[i]).digit == digit
}

/// Whether the technique makes deductions of the given shape: each kind
/// of single and the locked candidates have their own technique, the
/// subsets have six, the fish in lines three, the fish in houses those
/// three and the two mutant ones, and the other shape is that of a wing.
pub open spec fn shape_allows(deduction: DeductionView, technique: Technique) -> bool {
    match deduction {
        DeductionView::NakedSingle(_) => technique == Technique::NakedSingles,
        DeductionView::HiddenSingle(_) => technique == Technique::HiddenSingles,
        DeductionView::LockedCandidates { .. } => technique == Technique::LockedCandidates,
        DeductionView::Subsets { .. } => technique.is_subset(),
        DeductionView::BasicFish { .. } => technique.is_basic_fish(),
        DeductionView::Fish { .. } => technique.is_basic_fish() || technique.is_mutant_fish(),
        DeductionView::Other { .. } => technique.is_wing(),
    }
}

impl DeductionView {
    /// The technique that makes this deduction.
    pub open spec fn technique(self) -> Technique {
        match self {
            DeductionView::NakedSingle(_) => Technique::NakedSingles,
            DeductionView::HiddenSingle(_) => Technique::HiddenSingles,
            DeductionView::LockedCandidates { .. } => Technique::LockedCandidates,
            DeductionView::Subsets { technique, .. } => technique,
            DeductionView::BasicFish { technique, .. } => technique,
            DeductionView::Fish { technique, .. } => technique,
            DeductionView::Other { technique } => technique,
        }
    }

    /// The candidates that this deduction removes; none for a single.
    pub open spec fn conflicts(self) -> Seq<Candidate> {
        match self {
            DeductionView::LockedCandidates { conflicts, .. } => conflicts,
            DeductionView::Subsets { conflicts, .. } => conflicts,
            DeductionView::BasicFish { conflicts, .. } => conflicts,
            DeductionView::Fish { conflicts, .. } => conflicts,
            _ => Seq::empty(),
        }
    }

    /// Whether this deduction places a digit.
    pub open spec fn is_single(self) -> bool {
        self is NakedSingle || self is HiddenSingle
    }

    /// Whether the deduction's technique makes deductions of its shape.
    pub open spec fn technique_fits(self) -> bool {
        shape_allows(self, self.technique())
    }

    /// The deduction is one that a solver can make: its technique fits
    /// its shape, and all cells, digits, houses, lines and positions are
    /// in range. What a locked candidate or a fish removes is its own
    /// digit, and a fish in lines has 2 to 4 lines and as many positions.
    pub open spec fn wf(self) -> bool {
        &&& self.technique_fits()
        &&& match self {
            DeductionView::NakedSingle(c) => c.wf(),
            DeductionView::HiddenSingle(c) => c.wf(),
            DeductionView::LockedCandidates { digit, conflicts } => {
                &&& 1 <= digit <= 9
                &&& all_candidates(conflicts)
                &&& all_of_digit(conflicts, digit)
            },
            DeductionView::Subsets { technique, house, positions, digits, conflicts } => {
                &&& house < 27
                &&& all_below(positions, 9)
                &&& all_digits(digits)
                &&& all_candidates(conflicts)
            },
            DeductionView::BasicFish { technique, digit, lines, positions, conflicts } => {
                &&& 1 <= digit <= 9
                &&& 2 <= lines.len() <= 4
                &&& lines.len() == positions.len()
                &&& all_below(lines, 18)
                &&& all_below(positions, 9)
                &&& all_candidates(conflicts)
                &&& all_of_digit(conflicts, digit)
            },
            DeductionView::Fish { technique, digit, base, conflicts } => {
                &&& 1 <= digit <= 9
                &&& all_below(base, 27)
                &&& all_candidates(conflicts)
                &&& all_of_digit(conflicts, digit)
            },
            DeductionView::Other { technique } => true,
        }
    }
}

/// The members of a sequence of deductions as mathematical values.
pub open spec fn views(deductions: Seq<Deduction>) -> Seq<DeductionView> {
    deductions.map_values(|d: Deduction| d@)
}

/// Every deduction of the sequence is in range.
pub open spec fn all_wf(deductions: Seq<DeductionView>) -> bool {
    forall|i: int| 0 <= i < deductions.len() ==> (#[trigger] deductions[i]).wf()
}

impl Deduction {
    /// The technique that makes this deduction.
    pub fn technique(&self) -> (technique: Technique)
        ensures
            technique == self@.technique(),
    {
        match self {
            Deduction::NakedSingle(_) => Technique::NakedSingles,
            Deduction::HiddenSingle(_) => Technique::HiddenSingles,
            Deduction::LockedCandidates { .. } => Technique::LockedCandidates,
            Deduction::Subsets { technique, .. } => *technique,
            Deduction::BasicFish { technique, .. } => *technique,
            Deduction::Fish { technique, .. } => *technique,
            Deduction::Other { technique } => *technique,
        }
    }
}

} // verus!
