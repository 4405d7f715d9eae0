//! Difficulty grades and the rule that grades a sequence of deductions.

use vstd::prelude::*;
use crate::deduction::{views, Deduction, DeductionView};
use crate::technique::Technique;

verus! {

/// How hard a puzzle is, from the easiest grade to the hardest.
#[derive(Clone, Copy, PartialEq, Eq, Structural, PartialOrd, Ord, Debug, Hash)]
pub enum Grade {
    Beginner,
    Easy,
    Medium,
    Tricky,
    Hard,
}

impl Grade {
    /// The grade's place in the order: 0 for `Beginner`, 4 for `Hard`.
    pub open spec fn spec_rank(self) -> i32 {
        match self {
            Grade::Beginner => 0,
            Grade::Easy => 1,
            Grade::Medium => 2,
            Grade::Tricky => 3,
            Grade::Hard => 4,
        }
    }

    #[verifier::when_used_as_spec(spec_rank)]
    pub fn rank(self) -> (r: i32)
        ensures
            r == self.spec_rank(),
    {
        match self {
            Grade::Beginner => 0,
            Grade::Easy => 1,
            Grade::Medium => 2,
            Grade::Tricky => 3,
            Grade::Hard => 4,
        }
    }
}

/// The grade that a technique alone gives a puzzle.
pub open spec fn tier(technique: Technique) -> Grade {
    match technique {
        Technique::XWing | Technique::Swordfish | Technique::HiddenQuads => Grade::Hard,
        Technique::NakedQuads | Technique::HiddenTriples | Technique::HiddenPairs => Grade::Tricky,
        Technique::NakedPairs | Technique::NakedTriples => Grade::Medium,
        Technique::LockedCandidates => Grade::Easy,
        _ => Grade::Beginner,
    }
}

/// The grade of a puzzle that needs exactly the techniques in `used`.
///
/// The hardest bucket is tested first, and one technique of a bucket is
/// enough: how often a technique was used does not count.
pub open spec fn classify(used: Set<Technique>) -> Grade {
    if used.contains(Technique::XWing) || used.contains(Technique::Swordfish) || used.contains(
        Technique::HiddenQuads,
    ) {
        Grade::Hard
    } else if used.contains(Technique::NakedQuads) || used.contains(Technique::HiddenTriples)
        || used.contains(Technique::HiddenPairs) {
        Grade::Tricky
    } else if used.contains(Technique::NakedPairs) || used.contains(Technique::NakedTriples) {
        Grade::Medium
    } else if used.contains(Technique::LockedCandidates) {
        Grade::Easy
    } else {
        Grade::Beginner
    }
}

/// The techniques that make the deductions of a sequence.
pub open spec fn techniques_used(deductions: Seq<DeductionView>) -> Set<Technique> {
    Set::new(
        |t: Technique|
            exists|i: int| 0 <= i < deductions.len() && #[trigger] deductions[i].technique() == t,
    )
}

/// The grade of a puzzle that was solved by the given deductions.
pub open spec fn grade_of(deductions: Seq<DeductionView>) -> Grade {
    classify(techniques_used(deductions))
}

/// Whether the bit for the technique is set in a mask of techniques.
pub open spec fn has_technique(mask: u64, technique: Technique) -> bool {
    mask & (1u64 << (technique.index() as u64)) != 0
}

proof fn lemma_set_bit(mask: u64, i: u64, j: u64)
    by (bit_vector)
    requires
        i < 64,
        j < 64,
    ensures
        ((mask | (1u64 << i)) & (1u64 << j) != 0) == ((mask & (1u64 << j) != 0) || i == j),
        0u64 & (1u64 << j) == 0,
{
}

fn mask_has(mask: u64, technique: Technique) -> (has: bool)
    ensures
        has == has_technique(mask, technique),
{
    mask & (1u64 << (technique.index() as u64)) != 0
}

/// Grades a puzzle by the deductions that solved it.
pub fn grade_deductions(deductions: &Vec<Deduction>) -> (grade: Grade)
    ensures
        grade == grade_of(views(deductions@)),
{
    let ghost all: Seq<DeductionView> = views(deductions@);
    let mut mask: u64 = 0;
    let mut i: usize = 0;
    proof {
        assert forall|t: Technique| !#[trigger] has_technique(mask, t) by {
            lemma_set_bit(0, 0, t.index() as u64);
        }
    }
    while i < deductions.len()
        invariant
            i <= deductions.len(),
            all == views(deductions@),
            forall|t: Technique| #[trigger]
                has_technique(mask, t) <==> techniques_used(all.take(i as int)).contains(t),
        decreases deductions.len() - i,
    {
        let technique: Technique = deductions[i].technique();
        let ghost before: u64 = mask;
        mask = mask | (1u64 << (technique.index() as u64));
        proof {
            let old_part: Seq<DeductionView> = all.take(i as int);
            let new_part: Seq<DeductionView> = all.take(i + 1);
            assert(all[i as int].technique() == technique);
            assert forall|t: Technique| #[trigger]
                has_technique(mask, t) <==> techniques_used(new_part).contains(t) by {
                lemma_set_bit(before, technique.index() as u64, t.index() as u64);
                t.lemma_index_round_trip();
                technique.lemma_index_round_trip();
                assert(has_technique(mask, t) == (has_technique(before, t) || t == technique));
                if techniques_used(old_part).contains(t) {
                    let k: int = choose|k: int|
                        0 <= k < old_part.len() && #[trigger] old_part[k].technique() == t;
                    assert(new_part[k].technique() == t);
                }
                if t == technique {
                    assert(new_part[i as int].technique() == t);
                }
                if techniques_used(new_part).contains(t) {
                    let k: int = choose|k: int|
                        0 <= k < new_part.len() && #[trigger] new_part[k].technique() == t;
                    if k < i {
                        assert(old_part[k].technique() == t);
                    }
                }
            }
        }
        i = i + 1;
    }
    assert(all.take(i as int) =~= all);
    if mask_has(mask, Technique::XWing) || mask_has(mask, Technique::Swordfish) || mask_has(
        mask,
        Technique::HiddenQuads,
    ) {
        Grade::Hard
    } else if mask_has(mask, Technique::NakedQuads) || mask_has(mask, Technique::HiddenTriples)
        || mask_has(mask, Technique::HiddenPairs) {
        Grade::Tricky
    } else if mask_has(mask, Technique::NakedPairs) || mask_has(mask, Technique::NakedTriples) {
        Grade::Medium
    } else if mask_has(mask, Technique::LockedCandidates) {
        Grade::Easy
    } else {
        Grade::Beginner
    }
}

/// The grade is the hardest tier among the techniques used: no technique
/// used has a harder tier, and unless the grade is `Beginner` some
/// technique used has exactly that tier.
pub proof fn lemma_grade_is_hardest_tier(used: Set<Technique>)
    ensures
        forall|t: Technique| used.contains(t) ==> tier(t).rank() <= classify(used).rank(),
        classify(used) == Grade::Beginner || exists|t: Technique|
            used.contains(t) && tier(t) == classify(used),
{
    let g: Grade = classify(used);
    if g == Grade::Hard {
        let t: Technique = if used.contains(Technique::XWing) {
            Technique::XWing
        } else if used.contains(Technique::Swordfish) {
            Technique::Swordfish
        } else {
            Technique::HiddenQuads
        };
        assert(used.contains(t) && tier(t) == g);
    } else if g == Grade::Tricky {
        let t: Technique = if used.contains(Technique::NakedQuads) {
            Technique::NakedQuads
        } else if used.contains(Technique::HiddenTriples) {
            Technique::HiddenTriples
        } else {
            Technique::HiddenPairs
        };
        assert(used.contains(t) && tier(t) == g);
    } else if g == Grade::Medium {
        let t: Technique = if used.contains(Technique::NakedPairs) {
            Technique::NakedPairs
        } else {
            Technique::NakedTriples
        };
        assert(used.contains(t) && tier(t) == g);
    } else if g == Grade::Easy {
        assert(used.contains(Technique::LockedCandidates) && tier(Technique::LockedCandidates)
            == g);
    }
}

/// Using more techniques never lowers the grade.
pub proof fn lemma_grade_monotone(fewer: Set<Technique>, more: Set<Technique>)
    requires
        fewer.subset_of(more),
    ensures
        classify(fewer).rank() <= classify(more).rank(),
{
}

/// Adding techniques whose tier is no harder than the grade already
/// reached leaves the grade as it is.
pub proof fn lemma_easier_techniques_keep_grade(fewer: Set<Technique>, more: Set<Technique>)
    requires
        fewer.subset_of(more),
        forall|t: Technique|
            more.contains(t) && !fewer.contains(t) ==> tier(t).rank() <= classify(fewer).rank(),
    ensures
        classify(more) == classify(fewer),
{
    lemma_grade_is_hardest_tier(more);
    lemma_grade_monotone(fewer, more);
}

/// Two sequences of deductions made by the same techniques have the same
/// grade, however often and in whatever order each technique occurs.
pub proof fn lemma_grade_depends_on_techniques_only(a: Seq<DeductionView>, b: Seq<DeductionView>)
    requires
        forall|i: int|
            0 <= i < a.len() ==> exists|j: int|
                0 <= j < b.len() && #[trigger] b[j].technique() == #[trigger] a[i].technique(),
        forall|j: int|
            0 <= j < b.len() ==> exists|i: int|
                0 <= i < a.len() && #[trigger] a[i].technique() == #[trigger] b[j].technique(),
    ensures
        grade_of(a) == grade_of(b),
{
    assert forall|t: Technique| techniques_used(a).contains(t) == techniques_used(b).contains(
        t,
    ) by {
        if techniques_used(a).contains(t) {
            let i: int = choose|i: int| 0 <= i < a.len() && #[trigger] a[i].technique() == t;
            let j: int = choose|j: int|
                0 <= j < b.len() && #[trigger] b[j].technique() == a[i].technique();
            assert(b[j].technique() == t);
        }
        if techniques_used(b).contains(t) {
            let j: int = choose|j: int| 0 <= j < b.len() && #[trigger] b[j].technique() == t;
            let i: int = choose|i: int|
                0 <= i < a.len() && #[trigger] a[i].technique() == b[j].technique();
            assert(a[i].technique() == t);
        }
    }
    assert(techniques_used(a) =~= techniques_used(b));
}

/// The techniques of two sequences put end to end are those of either.
pub proof fn lemma_techniques_of_concat(a: Seq<DeductionView>, b: Seq<DeductionView>)
    ensures
        techniques_used(a + b) == techniques_used(a).union(techniques_used(b)),
{
    let ab: Seq<DeductionView> = a + b;
    assert forall|t: Technique| techniques_used(ab).contains(t) == (techniques_used(a).contains(t)
        || techniques_used(b).contains(t)) by {
        if techniques_used(ab).contains(t) {
            let k: int = choose|k: int| 0 <= k < ab.len() && #[trigger] ab[k].technique() == t;
            if k < a.len() {
                assert(a[k].technique() == t);
            } else {
                assert(b[k - a.len()].technique() == t);
            }
        }
        if techniques_used(a).contains(t) {
            let k: int = choose|k: int| 0 <= k < a.len() && #[trigger] a[k].technique() == t;
            assert(ab[k].technique() == t);
        }
        if techniques_used(b).contains(t) {
            let k: int = choose|k: int| 0 <= k < b.len() && #[trigger] b[k].technique() == t;
            assert(ab[k + a.len()].technique() == t);
        }
    }
    assert(techniques_used(ab) =~= techniques_used(a).union(techniques_used(b)));
}

/// Changing the order of two runs of deductions, or repeating a run,
/// does not change the grade.
pub proof fn lemma_grade_ignores_order_and_repeats(a: Seq<DeductionView>, b: Seq<DeductionView>)
    ensures
        grade_of(a + b) == grade_of(b + a),
        grade_of(a + a) == grade_of(a),
{
    lemma_techniques_of_concat(a, b);
    lemma_techniques_of_concat(b, a);
    lemma_techniques_of_concat(a, a);
    assert(techniques_used(a).union(techniques_used(b)) =~= techniques_used(b).union(
        techniques_used(a),
    ));
    assert(techniques_used(a).union(techniques_used(a)) =~= techniques_used(a));
}

} // verus!
