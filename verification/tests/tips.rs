use sudoku_tutor::{
    choose_tip, conflicts_to_cells, tip_for_deduction, Candidate, Deduction, Fish,
    LockedCandidate, Single, Subset, Technique, Tip,
};

const ALL_DIGITS: i32 = 0x1ff;

fn candidate(cell: usize, digit: usize) -> Candidate {
    Candidate { cell, digit }
}

fn terminal(strategy: &str) -> Tip {
    Tip {
        strategy: strategy.to_string(),
        single: None,
        locked_candidate: None,
        subset: None,
        fish: None,
    }
}

fn payloads(tip: &Tip) -> usize {
    let mut count = 0;
    if tip.single.is_some() {
        count += 1;
    }
    if tip.locked_candidate.is_some() {
        count += 1;
    }
    if tip.subset.is_some() {
        count += 1;
    }
    if tip.fish.is_some() {
        count += 1;
    }
    count
}

fn locked(digit: usize, cells: &[usize]) -> Deduction {
    Deduction::LockedCandidates {
        digit,
        conflicts: cells.iter().map(|cell| candidate(*cell, digit)).collect(),
    }
}

/// Marks that hold every digit as possible but the given candidates.
fn marks_without(cleared: &[Candidate]) -> Vec<i32> {
    let mut marks = vec![ALL_DIGITS; 81];
    for c in cleared {
        marks[c.cell] &= !(1 << (c.digit - 1));
    }
    marks
}

#[test]
fn conflicts_stay_where_the_mark_holds_the_digit() {
    let conflicts = vec![candidate(31, 1), candidate(32, 5), candidate(41, 9), candidate(31, 2)];
    let mut marks = vec![0; 81];
    marks[31] = 0b1;
    marks[32] = ALL_DIGITS & !0b1_0000;
    marks[41] = 0b1_0000_0000;
    assert_eq!(
        conflicts_to_cells(&conflicts, &marks),
        vec![candidate(31, 1), candidate(41, 9)]
    );
}

#[test]
fn bit_zero_stands_for_digit_one() {
    for digit in 1..=9usize {
        let conflicts = vec![candidate(40, digit)];
        let mut marks = vec![0; 81];
        marks[40] = 1 << (digit - 1);
        assert_eq!(conflicts_to_cells(&conflicts, &marks), conflicts);
        marks[40] = ALL_DIGITS & !(1 << (digit - 1));
        assert_eq!(conflicts_to_cells(&conflicts, &marks), vec![]);
    }
    let mut marks = vec![0; 81];
    marks[5] = 1 << 3;
    assert_eq!(conflicts_to_cells(&vec![candidate(5, 3)], &marks), vec![]);
    assert_eq!(conflicts_to_cells(&vec![candidate(5, 4)], &marks), vec![candidate(5, 4)]);
}

#[test]
fn conflicts_keep_their_order_and_their_repeats() {
    let conflicts = vec![
        candidate(80, 9),
        candidate(0, 1),
        candidate(80, 9),
        candidate(7, 5),
        candidate(0, 1),
    ];
    let marks = vec![ALL_DIGITS; 81];
    assert_eq!(conflicts_to_cells(&conflicts, &marks), conflicts);
    let marks = marks_without(&[candidate(0, 1)]);
    assert_eq!(
        conflicts_to_cells(&conflicts, &marks),
        vec![candidate(80, 9), candidate(80, 9), candidate(7, 5)]
    );
}

#[test]
fn no_conflicts_stay_with_empty_marks() {
    let conflicts = vec![candidate(0, 1), candidate(40, 5), candidate(80, 9)];
    assert_eq!(conflicts_to_cells(&conflicts, &vec![0; 81]), vec![]);
    assert_eq!(conflicts_to_cells(&vec![], &vec![ALL_DIGITS; 81]), vec![]);
}

#[test]
fn bits_above_the_digits_do_not_count() {
    let conflicts = vec![candidate(10, 9), candidate(10, 1)];
    let mut marks = vec![0; 81];
    marks[10] = !ALL_DIGITS;
    assert_eq!(conflicts_to_cells(&conflicts, &marks), vec![]);
    marks[10] = -1;
    assert_eq!(conflicts_to_cells(&conflicts, &marks), conflicts);
}

#[test]
fn a_naked_single_is_shown_whatever_the_marks() {
    let deduction = Deduction::NakedSingle(candidate(41, 4));
    let expected = Tip {
        single: Some(Single { cell: 41, digit: 4 }),
        ..terminal("NakedSingles")
    };
    assert_eq!(tip_for_deduction(&deduction, &vec![0; 81]), Some(expected.clone()));
    assert_eq!(tip_for_deduction(&deduction, &vec![ALL_DIGITS; 81]), Some(expected));
}

#[test]
fn a_hidden_single_is_shown_whatever_the_marks() {
    let deduction = Deduction::HiddenSingle(candidate(9, 2));
    let expected = Tip {
        single: Some(Single { cell: 9, digit: 2 }),
        ..terminal("HiddenSingles")
    };
    assert_eq!(tip_for_deduction(&deduction, &vec![0; 81]), Some(expected.clone()));
    assert_eq!(tip_for_deduction(&deduction, &vec![ALL_DIGITS; 81]), Some(expected));
}

#[test]
fn a_locked_candidate_shows_the_cells_that_still_hold_the_digit() {
    let deduction = locked(3, &[49, 31, 40]);
    let marks = marks_without(&[candidate(31, 3)]);
    let expected = Tip {
        locked_candidate: Some(LockedCandidate { digit: 3, conflict_cells: vec![49, 40] }),
        ..terminal("LockedCandidates")
    };
    assert_eq!(tip_for_deduction(&deduction, &marks), Some(expected));
}

#[test]
fn a_locked_candidate_that_the_marks_show_is_passed_over() {
    let deduction = locked(3, &[49, 31]);
    let marks = marks_without(&[candidate(31, 3), candidate(49, 3)]);
    assert_eq!(tip_for_deduction(&deduction, &marks), None);
}

#[test]
fn a_subset_in_a_row_shows_its_cells() {
    let deduction = Deduction::Subsets {
        technique: Technique::HiddenPairs,
        house: 0,
        positions: vec![7, 8],
        digits: vec![2, 6],
        conflicts: vec![
            candidate(7, 4),
            candidate(8, 4),
            candidate(7, 5),
            candidate(8, 5),
            candidate(8, 9),
        ],
    };
    let marks = marks_without(&[candidate(8, 4), candidate(7, 5)]);
    let expected = Tip {
        subset: Some(Subset {
            positions: vec![7, 8],
            digits: vec![2, 6],
            conflict_cells: vec![7, 8, 8],
            conflict_digits: vec![4, 5, 9],
        }),
        ..terminal("HiddenPairs")
    };
    assert_eq!(tip_for_deduction(&deduction, &marks), Some(expected));
}

#[test]
fn a_subset_in_a_column_shows_its_cells() {
    let deduction = Deduction::Subsets {
        technique: Technique::NakedTriples,
        house: 12,
        positions: vec![0, 2, 8],
        digits: vec![1, 5, 9],
        conflicts: vec![candidate(12, 1)],
    };
    let expected = Tip {
        subset: Some(Subset {
            positions: vec![3, 21, 75],
            digits: vec![1, 5, 9],
            conflict_cells: vec![12],
            conflict_digits: vec![1],
        }),
        ..terminal("NakedTriples")
    };
    assert_eq!(tip_for_deduction(&deduction, &vec![ALL_DIGITS; 81]), Some(expected));
}

#[test]
fn a_subset_in_a_block_shows_its_cells() {
    let deduction = Deduction::Subsets {
        technique: Technique::NakedQuads,
        house: 22,
        positions: vec![0, 4, 5, 8],
        digits: vec![1, 2, 3, 4],
        conflicts: vec![candidate(31, 1), candidate(32, 4), candidate(48, 2)],
    };
    let marks = marks_without(&[candidate(32, 4)]);
    let expected = Tip {
        subset: Some(Subset {
            positions: vec![30, 40, 41, 50],
            digits: vec![1, 2, 3, 4],
            conflict_cells: vec![31, 48],
            conflict_digits: vec![1, 2],
        }),
        ..terminal("NakedQuads")
    };
    assert_eq!(tip_for_deduction(&deduction, &marks), Some(expected));
}

#[test]
fn a_subset_that_the_marks_show_is_passed_over() {
    let deduction = Deduction::Subsets {
        technique: Technique::NakedPairs,
        house: 4,
        positions: vec![4, 8],
        digits: vec![4, 6],
        conflicts: vec![candidate(36, 6), candidate(41, 4), candidate(41, 6)],
    };
    let marks = marks_without(&[candidate(36, 6), candidate(41, 4), candidate(41, 6)]);
    assert_eq!(tip_for_deduction(&deduction, &marks), None);
    assert_eq!(tip_for_deduction(&deduction, &vec![0; 81]), None);
}

#[test]
fn a_fish_in_rows_pairs_each_row_with_its_position() {
    let deduction = Deduction::BasicFish {
        technique: Technique::XWing,
        digit: 6,
        lines: vec![0, 8],
        positions: vec![5, 8],
        conflicts: vec![candidate(35, 6), candidate(59, 6), candidate(62, 6)],
    };
    let marks = marks_without(&[candidate(59, 6)]);
    let expected = Tip {
        fish: Some(Fish {
            is_row: true,
            digit: 6,
            positions: vec![5, 80],
            conflict_cells: vec![35, 62],
            conflict_digits: vec![6, 6],
        }),
        ..terminal("XWing")
    };
    assert_eq!(tip_for_deduction(&deduction, &marks), Some(expected));
}

#[test]
fn a_fish_in_columns_pairs_each_column_with_its_position() {
    let deduction = Deduction::BasicFish {
        technique: Technique::Swordfish,
        digit: 2,
        lines: vec![9, 12, 17],
        positions: vec![2, 7, 8],
        conflicts: vec![candidate(20, 2)],
    };
    let expected = Tip {
        fish: Some(Fish {
            is_row: false,
            digit: 2,
            positions: vec![18, 66, 80],
            conflict_cells: vec![20],
            conflict_digits: vec![2],
        }),
        ..terminal("Swordfish")
    };
    assert_eq!(tip_for_deduction(&deduction, &vec![ALL_DIGITS; 81]), Some(expected));
}

#[test]
fn a_fish_in_four_lines_shows_four_cells() {
    let deduction = Deduction::BasicFish {
        technique: Technique::Jellyfish,
        digit: 1,
        lines: vec![1, 2, 3, 7],
        positions: vec![0, 4, 5, 8],
        conflicts: vec![candidate(0, 1)],
    };
    let tip = tip_for_deduction(&deduction, &vec![ALL_DIGITS; 81]).unwrap();
    assert_eq!(tip.strategy, "Jellyfish");
    let fish = tip.fish.unwrap();
    assert!(fish.is_row);
    assert_eq!(fish.positions, vec![9, 22, 32, 71]);
}

#[test]
fn a_fish_in_base_houses_shows_all_their_cells() {
    let deduction = Deduction::Fish {
        technique: Technique::MutantSwordfish,
        digit: 7,
        base: vec![2, 10, 18],
        conflicts: vec![candidate(44, 7), candidate(45, 7)],
    };
    let marks = marks_without(&[candidate(44, 7)]);
    let expected = Tip {
        fish: Some(Fish {
            is_row: true,
            digit: 7,
            positions: vec![
                18, 19, 20, 21, 22, 23, 24, 25, 26, 1, 10, 19, 28, 37, 46, 55, 64, 73, 0, 1, 2, 9,
                10, 11, 18, 19, 20,
            ],
            conflict_cells: vec![45],
            conflict_digits: vec![7],
        }),
        ..terminal("MutantSwordfish")
    };
    assert_eq!(tip_for_deduction(&deduction, &marks), Some(expected));
}

#[test]
fn a_fish_whose_first_base_house_is_a_column_lies_in_columns() {
    let deduction = Deduction::Fish {
        technique: Technique::XWing,
        digit: 7,
        base: vec![17],
        conflicts: vec![candidate(44, 7)],
    };
    let tip = tip_for_deduction(&deduction, &vec![ALL_DIGITS; 81]).unwrap();
    let fish = tip.fish.unwrap();
    assert!(!fish.is_row);
    assert_eq!(fish.positions, vec![8, 17, 26, 35, 44, 53, 62, 71, 80]);
}

#[test]
fn a_fish_whose_first_base_house_is_a_block_is_passed_over() {
    let deduction = Deduction::Fish {
        technique: Technique::MutantJellyfish,
        digit: 7,
        base: vec![20, 3],
        conflicts: vec![candidate(44, 7)],
    };
    assert_eq!(tip_for_deduction(&deduction, &vec![ALL_DIGITS; 81]), None);
}

#[test]
fn a_fish_without_base_houses_is_passed_over() {
    let in_houses = Deduction::Fish {
        technique: Technique::XWing,
        digit: 7,
        base: vec![],
        conflicts: vec![candidate(44, 7)],
    };
    assert_eq!(tip_for_deduction(&in_houses, &vec![ALL_DIGITS; 81]), None);
}

#[test]
fn a_fish_that_the_marks_show_is_passed_over() {
    let deduction = Deduction::BasicFish {
        technique: Technique::XWing,
        digit: 6,
        lines: vec![0, 8],
        positions: vec![5, 8],
        conflicts: vec![candidate(35, 6), candidate(59, 6)],
    };
    let marks = marks_without(&[candidate(35, 6), candidate(59, 6)]);
    assert_eq!(tip_for_deduction(&deduction, &marks), None);
}

#[test]
fn a_deduction_of_another_shape_is_passed_over() {
    let deduction = Deduction::Other { technique: Technique::XyWing };
    assert_eq!(tip_for_deduction(&deduction, &vec![ALL_DIGITS; 81]), None);
}

#[test]
fn no_deductions_give_the_tip_unknown() {
    assert_eq!(choose_tip(&vec![], &vec![ALL_DIGITS; 81]), terminal("Unknown"));
}

#[test]
fn the_first_deduction_that_gives_a_tip_is_chosen() {
    let deductions = vec![
        Deduction::Other { technique: Technique::XyzWing },
        locked(2, &[13, 14, 15]),
        locked(3, &[21, 22, 23]),
        Deduction::NakedSingle(candidate(0, 1)),
    ];
    let tip = choose_tip(&deductions, &vec![ALL_DIGITS; 81]);
    let expected = Tip {
        locked_candidate: Some(LockedCandidate { digit: 2, conflict_cells: vec![13, 14, 15] }),
        ..terminal("LockedCandidates")
    };
    assert_eq!(tip, expected);
}

#[test]
fn deductions_that_the_marks_show_are_skipped() {
    let deductions = vec![
        locked(2, &[13, 14, 15]),
        locked(3, &[21, 22, 23]),
        locked(4, &[30, 31]),
        Deduction::HiddenSingle(candidate(20, 9)),
    ];
    let known = [
        candidate(13, 2),
        candidate(14, 2),
        candidate(15, 2),
        candidate(21, 3),
        candidate(22, 3),
        candidate(23, 3),
    ];
    let tip = choose_tip(&deductions, &marks_without(&known));
    let expected = Tip {
        locked_candidate: Some(LockedCandidate { digit: 4, conflict_cells: vec![30, 31] }),
        ..terminal("LockedCandidates")
    };
    assert_eq!(tip, expected);
    let tip_after_them = choose_tip(&deductions[2..].to_vec(), &marks_without(&known));
    assert_eq!(tip_after_them, expected);
}

#[test]
fn a_deduction_that_the_marks_show_in_part_is_chosen_with_the_rest() {
    let deductions = vec![locked(2, &[13, 14, 15]), locked(3, &[21, 22, 23])];
    let known = [candidate(13, 2), candidate(15, 2)];
    let tip = choose_tip(&deductions, &marks_without(&known));
    let expected = Tip {
        locked_candidate: Some(LockedCandidate { digit: 2, conflict_cells: vec![14] }),
        ..terminal("LockedCandidates")
    };
    assert_eq!(tip, expected);
}

#[test]
fn a_single_behind_known_deductions_is_chosen() {
    let deductions = vec![
        locked(2, &[13, 14, 15]),
        Deduction::HiddenSingle(candidate(20, 9)),
        locked(3, &[21, 22, 23]),
    ];
    let tip = choose_tip(&deductions, &vec![0; 81]);
    let expected = Tip {
        single: Some(Single { cell: 20, digit: 9 }),
        ..terminal("HiddenSingles")
    };
    assert_eq!(tip, expected);
}

#[test]
fn marks_that_show_every_deduction_give_the_tip_unknown() {
    let deductions = vec![
        locked(2, &[13, 14, 15]),
        Deduction::Subsets {
            technique: Technique::NakedPairs,
            house: 4,
            positions: vec![4, 8],
            digits: vec![4, 6],
            conflicts: vec![candidate(36, 6), candidate(41, 4), candidate(41, 6)],
        },
        Deduction::BasicFish {
            technique: Technique::XWing,
            digit: 6,
            lines: vec![0, 8],
            positions: vec![5, 8],
            conflicts: vec![candidate(35, 6), candidate(59, 6), candidate(62, 6)],
        },
        Deduction::Other { technique: Technique::XyWing },
    ];
    let known = [
        candidate(13, 2),
        candidate(14, 2),
        candidate(15, 2),
        candidate(36, 6),
        candidate(41, 4),
        candidate(41, 6),
        candidate(35, 6),
        candidate(59, 6),
        candidate(62, 6),
    ];
    assert_eq!(choose_tip(&deductions, &marks_without(&known)), terminal("Unknown"));
    assert_eq!(choose_tip(&deductions, &vec![0; 81]), terminal("Unknown"));
}

#[test]
fn the_first_deduction_with_an_open_conflict_is_the_hint_and_no_other_adds_to_it() {
    let deductions = vec![
        locked(2, &[13, 14, 15]),
        Deduction::Subsets {
            technique: Technique::NakedPairs,
            house: 4,
            positions: vec![4, 8],
            digits: vec![4, 6],
            conflicts: vec![candidate(36, 6), candidate(41, 4), candidate(41, 6)],
        },
        Deduction::BasicFish {
            technique: Technique::XWing,
            digit: 6,
            lines: vec![0, 8],
            positions: vec![5, 8],
            conflicts: vec![candidate(35, 6), candidate(59, 6), candidate(62, 6)],
        },
        locked(5, &[70, 71]),
        Deduction::NakedSingle(candidate(3, 3)),
    ];
    let known = [
        candidate(13, 2),
        candidate(14, 2),
        candidate(15, 2),
        candidate(36, 6),
        candidate(41, 4),
        candidate(41, 6),
        candidate(59, 6),
    ];
    let marks = marks_without(&known);
    let expected = Tip {
        fish: Some(Fish {
            is_row: true,
            digit: 6,
            positions: vec![5, 80],
            conflict_cells: vec![35, 62],
            conflict_digits: vec![6, 6],
        }),
        ..terminal("XWing")
    };
    assert_eq!(choose_tip(&deductions, &marks), expected);
    assert_eq!(tip_for_deduction(&deductions[2], &marks), Some(expected.clone()));
    assert_eq!(choose_tip(&deductions[..3].to_vec(), &marks), expected);
    assert_eq!(choose_tip(&deductions[2..].to_vec(), &marks), expected);
}

#[test]
fn a_tip_holds_one_payload_or_none() {
    let every_shape = vec![
        Deduction::NakedSingle(candidate(41, 4)),
        Deduction::HiddenSingle(candidate(9, 2)),
        locked(2, &[13, 14, 15]),
        Deduction::Subsets {
            technique: Technique::NakedPairs,
            house: 4,
            positions: vec![4, 8],
            digits: vec![4, 6],
            conflicts: vec![candidate(36, 6)],
        },
        Deduction::BasicFish {
            technique: Technique::XWing,
            digit: 6,
            lines: vec![0, 8],
            positions: vec![5, 8],
            conflicts: vec![candidate(35, 6)],
        },
        Deduction::Fish {
            technique: Technique::Swordfish,
            digit: 6,
            base: vec![0, 1, 2],
            conflicts: vec![candidate(35, 6)],
        },
        Deduction::Other { technique: Technique::XyWing },
    ];
    for marks in [vec![0; 81], vec![ALL_DIGITS; 81]] {
        for from in 0..=every_shape.len() {
            let tip = choose_tip(&every_shape[from..].to_vec(), &marks);
            assert!(payloads(&tip) <= 1);
            assert_eq!(payloads(&tip) == 0, tip == terminal("Unknown"));
        }
        for deduction in every_shape.iter() {
            if let Some(tip) = tip_for_deduction(deduction, &marks) {
                assert_eq!(payloads(&tip), 1);
            }
        }
    }
}

#[test]
fn tip_constructors_fill_one_field() {
    assert_eq!(Tip::terminal("Invalid".to_string()), terminal("Invalid"));
    let single = Single { cell: 1, digit: 2 };
    assert_eq!(
        Tip::of_single("NakedSingles".to_string(), single),
        Tip { single: Some(single), ..terminal("NakedSingles") }
    );
    let locked_candidate = LockedCandidate { digit: 1, conflict_cells: vec![2] };
    assert_eq!(
        Tip::of_locked_candidate("LockedCandidates".to_string(), locked_candidate.clone()),
        Tip { locked_candidate: Some(locked_candidate), ..terminal("LockedCandidates") }
    );
    let subset = Subset {
        positions: vec![1],
        digits: vec![2],
        conflict_cells: vec![3],
        conflict_digits: vec![4],
    };
    assert_eq!(
        Tip::of_subset("NakedPairs".to_string(), subset.clone()),
        Tip { subset: Some(subset), ..terminal("NakedPairs") }
    );
    let fish = Fish {
        is_row: true,
        digit: 1,
        positions: vec![2],
        conflict_cells: vec![3],
        conflict_digits: vec![1],
    };
    assert_eq!(
        Tip::of_fish("XWing".to_string(), fish.clone()),
        Tip { fish: Some(fish), ..terminal("XWing") }
    );
}
