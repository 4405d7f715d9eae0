//! The solving techniques and the fixed battery that grading and hinting use.

use vstd::prelude::*;

verus! {

/// One logical solving technique.
///
/// The variants stand in the order in which the solver crate numbers its
/// strategies, so that `index` is that number.
#[derive(Clone, Copy, PartialEq, Eq, Structural, Debug, Hash)]
pub enum Technique {
    NakedSingles,
    HiddenSingles,
    LockedCandidates,
    NakedPairs,
    NakedTriples,
    NakedQuads,
    HiddenPairs,
    HiddenTriples,
    HiddenQuads,
    XWing,
    Swordfish,
    Jellyfish,
    XyWing,
    XyzWing,
    MutantSwordfish,
    MutantJellyfish,
    AvoidableRectangles,
}

/// How many techniques there are.
pub const TECHNIQUE_COUNT: usize = 17;

impl Technique {
    /// The technique's number, usable as a bit index.
    pub open spec fn spec_index(self) -> usize {
        match self {
            Technique::NakedSingles => 0,
            Technique::HiddenSingles => 1,
            Technique::LockedCandidates => 2,
            Technique::NakedPairs => 3,
            Technique::NakedTriples => 4,
            Technique::NakedQuads => 5,
            Technique::HiddenPairs => 6,
            Technique::HiddenTriples => 7,
            Technique::HiddenQuads => 8,
            Technique::XWing => 9,
            Technique::Swordfish => 10,
            Technique::Jellyfish => 11,
            Technique::XyWing => 12,
            Technique::XyzWing => 13,
            Technique::MutantSwordfish => 14,
            Technique::MutantJellyfish => 15,
            Technique::AvoidableRectangles => 16,
        }
    }

    /// The technique with the given number, if there is one.
    pub open spec fn spec_from_index(index: usize) -> Option<Technique> {
        match index {
            0 => Some(Technique::NakedSingles),
            1 => Some(Technique::HiddenSingles),
            2 => Some(Technique::LockedCandidates),
            3 => Some(Technique::NakedPairs),
            4 => Some(Technique::NakedTriples),
            5 => Some(Technique::NakedQuads),
            6 => Some(Technique::HiddenPairs),
            7 => Some(Technique::HiddenTriples),
            8 => Some(Technique::HiddenQuads),
            9 => Some(Technique::XWing),
            10 => Some(Technique::Swordfish),
            11 => Some(Technique::Jellyfish),
            12 => Some(Technique::XyWing),
            13 => Some(Technique::XyzWing),
            14 => Some(Technique::MutantSwordfish),
            15 => Some(Technique::MutantJellyfish),
            16 => Some(Technique::AvoidableRectangles),
            _ => None,
        }
    }

    #[verifier::when_used_as_spec(spec_index)]
    pub fn index(self) -> (r: usize)
        ensures
            r == self.spec_index(),
            r < TECHNIQUE_COUNT,
    {
        match self {
            Technique::NakedSingles => 0,
            Technique::HiddenSingles => 1,
            Technique::LockedCandidates => 2,
            Technique::NakedPairs => 3,
            Technique::NakedTriples => 4,
            Technique::NakedQuads => 5,
            Technique::HiddenPairs => 6,
            Technique::HiddenTriples => 7,
            Technique::HiddenQuads => 8,
            Technique::XWing => 9,
            Technique::Swordfish => 10,
            Technique::Jellyfish => 11,
            Technique::XyWing => 12,
            Technique::XyzWing => 13,
            Technique::MutantSwordfish => 14,
            Technique::MutantJellyfish => 15,
            Technique::AvoidableRectangles => 16,
        }
    }

    #[verifier::when_used_as_spec(spec_from_index)]
    pub fn from_index(index: usize) -> (r: Option<Technique>)
        ensures
            r == Technique::spec_from_index(index),
            r is Some <==> index < TECHNIQUE_COUNT,
            r matches Some(t) ==> t.index() == index,
    {
        match index {
            0 => Some(Technique::NakedSingles),
            1 => Some(Technique::HiddenSingles),
            2 => Some(Technique::LockedCandidates),
            3 => Some(Technique::NakedPairs),
            4 => Some(Technique::NakedTriples),
            5 => Some(Technique::NakedQuads),
            6 => Some(Technique::HiddenPairs),
            7 => Some(Technique::HiddenTriples),
            8 => Some(Technique::HiddenQuads),
            9 => Some(Technique::XWing),
            10 => Some(Technique::Swordfish),
            11 => Some(Technique::Jellyfish),
            12 => Some(Technique::XyWing),
            13 => Some(Technique::XyzWing),
            14 => Some(Technique::MutantSwordfish),
            15 => Some(Technique::MutantJellyfish),
            16 => Some(Technique::AvoidableRectangles),
            _ => None,
        }
    }

    /// Whether the technique finds a subset: a naked or hidden pair,
    /// triple or quad.
    pub open spec fn is_subset(self) -> bool {
        self == Technique::NakedPairs || self == Technique::NakedTriples || self
            == Technique::NakedQuads || self == Technique::HiddenPairs || self
            == Technique::HiddenTriples || self == Technique::HiddenQuads
    }

    /// Whether the technique finds a fish in rows or in columns.
    pub open spec fn is_basic_fish(self) -> bool {
        self == Technique::XWing || self == Technique::Swordfish || self == Technique::Jellyfish
    }

    /// Whether the technique finds a fish whose houses may be blocks.
    pub open spec fn is_mutant_fish(self) -> bool {
        self == Technique::MutantSwordfish || self == Technique::MutantJellyfish
    }

    /// Whether the technique finds a wing.
    pub open spec fn is_wing(self) -> bool {
        self == Technique::XyWing || self == Technique::XyzWing
    }

    /// A technique is found again from its number, so no two share one.
    pub proof fn lemma_index_round_trip(self)
        ensures
            Technique::spec_from_index(self.spec_index()) == Some(self),
    {
    }

    /// The technique's name as a sequence of characters.
    pub open spec fn name(self) -> Seq<char> {
        match self {
            Technique::NakedSingles => "NakedSingles"@,
            Technique::HiddenSingles => "HiddenSingles"@,
            Technique::LockedCandidates => "LockedCandidates"@,
            Technique::NakedPairs => "NakedPairs"@,
            Technique::NakedTriples => "NakedTriples"@,
            Technique::NakedQuads => "NakedQuads"@,
            Technique::HiddenPairs => "HiddenPairs"@,
            Technique::HiddenTriples => "HiddenTriples"@,
            Technique::HiddenQuads => "HiddenQuads"@,
            Technique::XWing => "XWing"@,
            Technique::Swordfish => "Swordfish"@,
            Technique::Jellyfish => "Jellyfish"@,
            Technique::XyWing => "XyWing"@,
            Technique::XyzWing => "XyzWing"@,
            Technique::MutantSwordfish => "MutantSwordfish"@,
            Technique::MutantJellyfish => "MutantJellyfish"@,
            Technique::AvoidableRectangles => "AvoidableRectangles"@,
        }
    }
}

/// Whether the name is one that a hint without a step bears: `"Unknown"`,
/// `"Unsolvable"` or `"Invalid"`.
pub open spec fn is_label(name: Seq<char>) -> bool {
    name == "Unknown"@ || name == "Unsolvable"@ || name == "Invalid"@
}

/// No technique is named as a hint without a step is.
pub proof fn lemma_name_is_no_label(technique: Technique)
    ensures
        !is_label(technique.name()),
{
    reveal_strlit("Unknown");
    reveal_strlit("Unsolvable");
    reveal_strlit("Invalid");
    reveal_strlit("NakedSingles");
    reveal_strlit("HiddenSingles");
    reveal_strlit("LockedCandidates");
    reveal_strlit("NakedPairs");
    reveal_strlit("NakedTriples");
    reveal_strlit("NakedQuads");
    reveal_strlit("HiddenPairs");
    reveal_strlit("HiddenTriples");
    reveal_strlit("HiddenQuads");
    reveal_strlit("XWing");
    reveal_strlit("Swordfish");
    reveal_strlit("Jellyfish");
    reveal_strlit("XyWing");
    reveal_strlit("XyzWing");
    reveal_strlit("MutantSwordfish");
    reveal_strlit("MutantJellyfish");
    reveal_strlit("AvoidableRectangles");
    let name: Seq<char> = technique.name();
    assert(name[0] != 'U' && name[0] != 'I');
    assert("Unknown"@[0] == 'U' && "Unsolvable"@[0] == 'U' && "Invalid"@[0] == 'I');
}

/// The name under which a hint reports a technique.
pub fn strategy_to_name(strategy: Technique) -> (name: String)
    ensures
        name@ == strategy.name(),
{
    match strategy {
        Technique::NakedSingles => "NakedSingles".to_owned(),
        Technique::HiddenSingles => "HiddenSingles".to_owned(),
        Technique::LockedCandidates => "LockedCandidates".to_owned(),
        Technique::NakedPairs => "NakedPairs".to_owned(),
        Technique::NakedTriples => "NakedTriples".to_owned(),
        Technique::NakedQuads => "NakedQuads".to_owned(),
        Technique::HiddenPairs => "HiddenPairs".to_owned(),
        Technique::HiddenTriples => "HiddenTriples".to_owned(),
        Technique::HiddenQuads => "HiddenQuads".to_owned(),
        Technique::XWing => "XWing".to_owned(),
        Technique::Swordfish => "Swordfish".to_owned(),
        Technique::Jellyfish => "Jellyfish".to_owned(),
        Technique::XyWing => "XyWing".to_owned(),
        Technique::XyzWing => "XyzWing".to_owned(),
        Technique::MutantSwordfish => "MutantSwordfish".to_owned(),
        Technique::MutantJellyfish => "MutantJellyfish".to_owned(),
        Technique::AvoidableRectangles => "AvoidableRectangles".to_owned(),
    }
}

/// The battery of techniques, in the order in which the solver tries them.
pub open spec fn registry() -> Seq<Technique> {
    seq![
        Technique::NakedSingles,
        Technique::HiddenSingles,
        Technique::LockedCandidates,
        Technique::NakedPairs,
        Technique::XWing,
        Technique::HiddenPairs,
        Technique::NakedTriples,
        Technique::Swordfish,
        Technique::HiddenTriples,
        Technique::NakedQuads,
        Technique::HiddenQuads,
    ]
}

/// The battery holds eleven techniques, and avoidable rectangles are
/// none of them.
pub proof fn lemma_registry_is_without_rectangles()
    ensures
        registry().len() == 11,
        forall|i: int|
            0 <= i < registry().len() ==> #[trigger] registry()[i]
                != Technique::AvoidableRectangles,
{
    assert(registry().len() == 11);
    assert forall|i: int| 0 <= i < 11 implies #[trigger] registry()[i]
        != Technique::AvoidableRectangles by {
        assert(i == 0 || i == 1 || i == 2 || i == 3 || i == 4 || i == 5 || i == 6 || i == 7 || i
            == 8 || i == 9 || i == 10);
    }
}

/// The battery of techniques as a vector.
pub fn strategies() -> (battery: Vec<Technique>)
    ensures
        battery@ == registry(),
{
    let battery: Vec<Technique> = vec![
        Technique::NakedSingles,
        Technique::HiddenSingles,
        Technique::LockedCandidates,
        Technique::NakedPairs,
        Technique::XWing,
        Technique::HiddenPairs,
        Technique::NakedTriples,
        Technique::Swordfish,
        Technique::HiddenTriples,
        Technique::NakedQuads,
        Technique::HiddenQuads,
    ];
    assert(battery@ =~= registry());
    battery
}

} // verus!
