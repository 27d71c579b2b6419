use rubiks_cube_simulator::explorer::{
    AlternativeGenerator, CollectionModifier, CornerModifier, EdgeFlipModifier, EdgeModifier,
    EdgeSwapAlternativeGenerator, EdgeSwapModifier, MixedOperation, ModifiedEdgeSequence,
    ModifiedMoveSequence, ModifiedMoveSequenceCollection, ModifiedSequence, MoveModifier,
    NearbyEdgeOperationSearch, NearbyOperationSearch, NearbySequenceSearch,
    NotationAlternativeGenerator, SameGroupAlternativeGenerator, SwapModifier, TwistModifier,
    WrongOperationDetector,
};
use rubiks_cube_simulator::inspection::{
    CornerInspection, CornerOperation, CornerSwapOperation, CornerTwistOperation,
    EdgeFlipOperation, EdgeInspection, EdgeOperation, EdgeSwapOperation,
};
use rubiks_cube_simulator::{NotationMove, State};

fn one_swap_state() -> State {
    State::new(
        [1, 0, 2, 3, 4, 5, 6, 7],
        [0, 0, 0, 0, 0, 0, 0, 0],
        [0, 1, 2, 3, 4, 5, 6, 7, 8, 9, 10, 11],
        [0, 0, 0, 0, 0, 0, 0, 0, 0, 0, 0, 0],
    )
}

fn complex_corner_state() -> State {
    State::new(
        [1, 0, 6, 2, 5, 4, 3, 7],
        [2, 1, 0, 2, 2, 2, 2, 1],
        [0, 1, 2, 3, 4, 5, 6, 7, 8, 9, 10, 11],
        [0, 0, 0, 0, 0, 0, 0, 0, 0, 0, 0, 0],
    )
}

fn edge_pair_state() -> State {
    State::new(
        [0, 1, 2, 3, 4, 5, 6, 7],
        [0, 0, 0, 0, 0, 0, 0, 0],
        [1, 0, 2, 3, 4, 5, 6, 7, 9, 8, 10, 11],
        [0, 0, 0, 0, 0, 0, 0, 0, 0, 0, 0, 0],
    )
}

fn complex_edge_state() -> State {
    State::new(
        [0, 1, 2, 3, 4, 5, 6, 7],
        [0, 0, 0, 0, 0, 0, 0, 0],
        [1, 0, 6, 2, 5, 4, 3, 7, 9, 10, 11, 8],
        [1, 1, 0, 1, 1, 1, 1, 0, 1, 0, 1, 0],
    )
}

fn count_corner_swaps(ops: &[CornerOperation]) -> usize {
    ops.iter().filter(|op| matches!(op, CornerOperation::Swap(_))).count()
}

fn count_corner_twists(ops: &[CornerOperation]) -> usize {
    ops.iter().filter(|op| matches!(op, CornerOperation::Twist(_))).count()
}

fn count_edge_swaps(ops: &[EdgeOperation]) -> usize {
    ops.iter().filter(|op| matches!(op, EdgeOperation::Swap(_))).count()
}

fn count_edge_flips(ops: &[EdgeOperation]) -> usize {
    ops.iter().filter(|op| matches!(op, EdgeOperation::Flip(_))).count()
}

fn pairs(n: usize) -> usize {
    if n >= 2 {
        n * (n - 1) / 2
    } else {
        0
    }
}

// ---- corner modifiers ----

#[test]
fn test_modified_sequence_basic() {
    let original = vec![
        CornerOperation::Swap(CornerSwapOperation::new(0, 1, 0)),
        CornerOperation::Swap(CornerSwapOperation::new(0, 2, 0)),
    ];
    let mut modified = ModifiedSequence::new(original.clone());
    modified.add_modifier(CornerModifier::Swap(SwapModifier {
        step: 0,
        modifier: CornerSwapOperation::new(0, 3, 1),
    }));
    let sequence = modified.get_sequence();
    assert_eq!(sequence.len(), 2);
    assert!(modified.is_modified(0));
    assert!(!modified.is_modified(1));
    assert_eq!(modified.original_sequence, original);
}

#[test]
fn test_modified_sequence_display() {
    let original = vec![
        CornerOperation::Swap(CornerSwapOperation::new(0, 1, 0)),
        CornerOperation::Swap(CornerSwapOperation::new(0, 2, 0)),
        CornerOperation::Twist(CornerTwistOperation::new(0, 1)),
    ];
    let mut modified = ModifiedSequence::new(original);
    modified.add_modifier(CornerModifier::Swap(SwapModifier {
        step: 1,
        modifier: CornerSwapOperation::new(0, 5, 2),
    }));
    let display = modified.to_display_string();
    println!("{}", display);
    assert!(display.contains("**"));
    assert!(display.contains("Step 1:"));
    assert!(display.contains("Step 2:"));
    assert!(display.contains("Step 3:"));
}

#[test]
fn test_corner_modifier_step() {
    let swap_mod = CornerModifier::Swap(SwapModifier {
        step: 5,
        modifier: CornerSwapOperation::new(0, 1, 0),
    });
    assert_eq!(swap_mod.step(), 5);
    let twist_mod = CornerModifier::Twist(TwistModifier {
        step: 3,
        modifier: CornerTwistOperation::new(2, 1),
    });
    assert_eq!(twist_mod.step(), 3);
}

#[test]
fn modifier_test_multiple_modifiers() {
    let original = vec![
        CornerOperation::Swap(CornerSwapOperation::new(0, 1, 0)),
        CornerOperation::Swap(CornerSwapOperation::new(0, 2, 0)),
        CornerOperation::Swap(CornerSwapOperation::new(0, 3, 0)),
    ];
    let mut modified = ModifiedSequence::new(original);
    modified.add_modifier(CornerModifier::Swap(SwapModifier {
        step: 0,
        modifier: CornerSwapOperation::new(0, 4, 1),
    }));
    modified.add_modifier(CornerModifier::Swap(SwapModifier {
        step: 2,
        modifier: CornerSwapOperation::new(0, 5, 2),
    }));
    let sequence = modified.get_sequence();
    assert_eq!(sequence.len(), 3);
    assert!(modified.is_modified(0));
    assert!(!modified.is_modified(1));
    assert!(modified.is_modified(2));
}

#[test]
fn corner_modifier_replaces_step_and_marks_it() {
    let original = vec![
        CornerOperation::Swap(CornerSwapOperation::new(2, 1, 0)),
        CornerOperation::Twist(CornerTwistOperation::new(3, 2)),
    ];
    let mut modified = ModifiedSequence::new(original);
    modified.add_modifier(CornerModifier::Twist(TwistModifier {
        step: 1,
        modifier: CornerTwistOperation::new(4, 1),
    }));
    assert_eq!(
        modified.get_sequence(),
        vec![
            CornerOperation::Swap(CornerSwapOperation::new(2, 1, 0)),
            CornerOperation::Twist(CornerTwistOperation::new(4, 1)),
        ]
    );
    assert_eq!(
        modified.to_display_string(),
        "Step 1: Swap: 2 ↔ 1 (ori: 0)\nStep 2: **Twist: corner[4] (ori: 1)**\n"
    );
}

// ---- edge modifiers ----

#[test]
fn test_modified_edge_sequence_basic() {
    let original = vec![
        EdgeOperation::Swap(EdgeSwapOperation::new(8, 0, 0)),
        EdgeOperation::Swap(EdgeSwapOperation::new(8, 1, 0)),
    ];
    let mut modified = ModifiedEdgeSequence::new(original.clone());
    modified.add_modifier(EdgeModifier::Swap(EdgeSwapModifier {
        step: 0,
        modifier: EdgeSwapOperation::new(8, 2, 1),
    }));
    let sequence = modified.get_sequence();
    assert_eq!(sequence.len(), 2);
    assert!(modified.is_modified(0));
    assert!(!modified.is_modified(1));
    assert_eq!(modified.original_sequence, original);
}

#[test]
fn test_modified_edge_sequence_display() {
    let original = vec![
        EdgeOperation::Swap(EdgeSwapOperation::new(8, 0, 0)),
        EdgeOperation::Swap(EdgeSwapOperation::new(8, 1, 0)),
        EdgeOperation::Flip(EdgeFlipOperation::new(2)),
    ];
    let mut modified = ModifiedEdgeSequence::new(original);
    modified.add_modifier(EdgeModifier::Swap(EdgeSwapModifier {
        step: 1,
        modifier: EdgeSwapOperation::new(8, 5, 1),
    }));
    let display = modified.to_display_string();
    println!("{}", display);
    assert!(display.contains("**"));
    assert!(display.contains("Step 1:"));
    assert!(display.contains("Step 2:"));
    assert!(display.contains("Step 3:"));
}

#[test]
fn test_edge_modifier_step() {
    let swap_mod = EdgeModifier::Swap(EdgeSwapModifier {
        step: 5,
        modifier: EdgeSwapOperation::new(8, 0, 0),
    });
    assert_eq!(swap_mod.step(), 5);
    let flip_mod = EdgeModifier::Flip(EdgeFlipModifier {
        step: 3,
        modifier: EdgeFlipOperation::new(2),
    });
    assert_eq!(flip_mod.step(), 3);
}

#[test]
fn edge_modifier_test_multiple_modifiers() {
    let original = vec![
        EdgeOperation::Swap(EdgeSwapOperation::new(8, 0, 0)),
        EdgeOperation::Swap(EdgeSwapOperation::new(8, 1, 0)),
        EdgeOperation::Swap(EdgeSwapOperation::new(8, 2, 0)),
    ];
    let mut modified = ModifiedEdgeSequence::new(original);
    modified.add_modifier(EdgeModifier::Swap(EdgeSwapModifier {
        step: 0,
        modifier: EdgeSwapOperation::new(8, 4, 1),
    }));
    modified.add_modifier(EdgeModifier::Swap(EdgeSwapModifier {
        step: 2,
        modifier: EdgeSwapOperation::new(8, 5, 1),
    }));
    let sequence = modified.get_sequence();
    assert_eq!(sequence.len(), 3);
    assert!(modified.is_modified(0));
    assert!(!modified.is_modified(1));
    assert!(modified.is_modified(2));
}

// ---- corner neighbourhood search ----

#[test]
fn test_nearby_search_basic() {
    let state = one_swap_state();
    let original_solution = CornerInspection::solve_corner_permutation_with_orientation(&state);
    println!("\n=== Original Solution ===");
    let original_modified = ModifiedSequence::new(original_solution.clone());
    println!("{}", NearbyOperationSearch::format_variant(&original_modified));
    let searcher = NearbyOperationSearch::new(original_solution.clone());
    let variants = searcher.explore_variants(&state);
    println!("\n=== Generated {} variants ===", variants.len());
    let swap_count = count_corner_swaps(&original_solution);
    assert_eq!(variants.len(), swap_count * 23);
    for (i, (modified, final_state)) in variants.iter().take(3).enumerate() {
        println!("\n--- Variant {} ---", i + 1);
        println!("{}", NearbyOperationSearch::format_variant(modified));
        println!("Final state solved: {}", final_state.is_solved());
    }
}

#[test]
fn test_nearby_search_with_twist() {
    let state = State::new(
        [0, 1, 2, 3, 4, 5, 6, 7],
        [1, 2, 0, 0, 0, 0, 0, 0],
        [0, 1, 2, 3, 4, 5, 6, 7, 8, 9, 10, 11],
        [0, 0, 0, 0, 0, 0, 0, 0, 0, 0, 0, 0],
    );
    let original_solution = CornerInspection::solve_corner_permutation_with_orientation(&state);
    assert!(original_solution.iter().all(|op| matches!(op, CornerOperation::Twist(_))));
    let searcher = NearbyOperationSearch::new(original_solution.clone());
    let variants = searcher.explore_variants(&state);
    let twist_count = original_solution.len();
    assert_eq!(variants.len(), twist_count * 15);
}

#[test]
fn test_nearby_search_complex() {
    let state = complex_corner_state();
    let original_solution = CornerInspection::solve_corner_permutation_with_orientation(&state);
    println!("\n=== Complex Case Original Solution ===");
    let original_modified = ModifiedSequence::new(original_solution.clone());
    println!("{}", NearbyOperationSearch::format_variant(&original_modified));
    let searcher = NearbyOperationSearch::new(original_solution.clone());
    let variants = searcher.explore_variants(&state);
    println!("\n=== Generated {} variants for complex case ===", variants.len());
    let solved_variants: Vec<_> = variants.iter().filter(|(_, final_state)| final_state.is_solved()).collect();
    println!("Found {} solved variants", solved_variants.len());
    if !solved_variants.is_empty() {
        println!("\n--- All solved variant ---");
        for (i, (modified, final_state)) in solved_variants.iter().enumerate() {
            println!("\n--- Solved Variant {} ---", i + 1);
            println!("{}", NearbyOperationSearch::format_variant(modified));
            println!("Final state solved: {}", final_state.is_solved());
        }
    }
}

#[test]
fn nearby_search_test_does_not_include_original_operation() {
    let state = one_swap_state();
    let original_solution = CornerInspection::solve_corner_permutation_with_orientation(&state);
    let searcher = NearbyOperationSearch::new(original_solution.clone());
    let variants = searcher.explore_variants(&state);
    let original_found = variants.iter().any(|(modified, _)| modified.get_sequence() == original_solution);
    assert!(!original_found, "元の操作列と同じバリエーションが含まれています");
}

#[test]
fn test_two_changes_basic() {
    let state = one_swap_state();
    let original_solution = CornerInspection::solve_corner_permutation_with_orientation(&state);
    println!("\n=== Original Solution ===");
    let original_modified = ModifiedSequence::new(original_solution.clone());
    println!("{}", NearbyOperationSearch::format_variant(&original_modified));
    let searcher = NearbyOperationSearch::new(original_solution.clone());
    let variants = searcher.explore_variants_two_changes(&state);
    println!("\n=== Generated {} two-change variants ===", variants.len());
    let swap_count = count_corner_swaps(&original_solution);
    let twist_count = count_corner_twists(&original_solution);
    let expected_count = pairs(swap_count) * 23 * 23 + swap_count * twist_count * 23 * 15 + pairs(twist_count) * 15 * 15;
    assert_eq!(variants.len(), expected_count);
}

#[test]
fn test_two_changes_complex() {
    let state = complex_corner_state();
    let original_solution = CornerInspection::solve_corner_permutation_with_orientation(&state);
    println!("\n=== Complex Case Original Solution ===");
    let original_modified = ModifiedSequence::new(original_solution.clone());
    println!("{}", NearbyOperationSearch::format_variant(&original_modified));
    let searcher = NearbyOperationSearch::new(original_solution.clone());
    let variants = searcher.explore_variants_two_changes(&state);
    println!("\n=== Generated {} two-change variants for complex case ===", variants.len());
    let solved_variants: Vec<_> = variants.iter().filter(|(_, final_state)| final_state.is_solved()).collect();
    println!("Found {} solved two-change variants", solved_variants.len());
    if !solved_variants.is_empty() {
        println!("\n--- First few solved two-change variants ---");
        for (i, (modified, _)) in solved_variants.iter().take(3).enumerate() {
            println!("\n--- Solved Variant {} ---", i + 1);
            println!("{}", NearbyOperationSearch::format_variant(modified));
        }
    }
}

#[test]
fn test_two_changes_twist_only() {
    let state = State::solved();
    let original_solution = vec![
        CornerOperation::Twist(CornerTwistOperation::new(0, 1)),
        CornerOperation::Twist(CornerTwistOperation::new(1, 2)),
        CornerOperation::Twist(CornerTwistOperation::new(2, 1)),
    ];
    let searcher = NearbyOperationSearch::new(original_solution);
    let variants = searcher.explore_variants_two_changes(&state);
    assert_eq!(variants.len(), 675);
}

#[test]
fn test_two_changes_mixed_comprehensive() {
    let state = State::solved();
    let original_solution = vec![
        CornerOperation::Swap(CornerSwapOperation::new(0, 1, 0)),
        CornerOperation::Swap(CornerSwapOperation::new(0, 2, 0)),
        CornerOperation::Twist(CornerTwistOperation::new(0, 1)),
        CornerOperation::Twist(CornerTwistOperation::new(3, 2)),
    ];
    let searcher = NearbyOperationSearch::new(original_solution);
    let variants = searcher.explore_variants_two_changes(&state);
    assert_eq!(variants.len(), 2134);
}

#[test]
fn one_change_variants_never_repeat_the_base_list() {
    let state = complex_corner_state();
    let original_solution = CornerInspection::solve_corner_permutation_with_orientation(&state);
    let searcher = NearbyOperationSearch::new(original_solution.clone());
    let variants = searcher.explore_variants(&state);
    assert_eq!(
        variants.len(),
        count_corner_swaps(&original_solution) * 23 + count_corner_twists(&original_solution) * 15
    );
    for (modified, _) in &variants {
        assert_ne!(modified.get_sequence(), original_solution);
    }
}

#[test]
fn swap_alternative_first_is_buffer_with_slot_zero() {
    let base = vec![CornerOperation::Swap(CornerSwapOperation::new(2, 1, 0))];
    let searcher = NearbyOperationSearch::new(base.clone());
    let variants = searcher.explore_variants(&State::solved());
    assert_eq!(variants.len(), 23);
    assert_eq!(
        variants[0].0.get_sequence(),
        vec![CornerOperation::Swap(CornerSwapOperation::new(2, 0, 0))]
    );
    let expected_state = CornerOperation::Swap(CornerSwapOperation::new(2, 0, 0)).apply(&State::solved());
    assert_eq!(variants[0].1, expected_state);
    assert_eq!(searcher.base_operations(), base.as_slice());
}

// ---- edge neighbourhood search ----

#[test]
fn test_nearby_edge_search_basic() {
    let state = edge_pair_state();
    let original_solution = EdgeInspection::solve_edge_permutation_with_orientation(&state);
    println!("\n=== Original Solution ===");
    let original_modified = ModifiedEdgeSequence::new(original_solution.clone());
    println!("{}", NearbyEdgeOperationSearch::format_variant(&original_modified));
    let searcher = NearbyEdgeOperationSearch::new(original_solution.clone());
    let variants = searcher.explore_variants(&state);
    println!("\n=== Generated {} variants ===", variants.len());
    let swap_count = count_edge_swaps(&original_solution);
    assert_eq!(variants.len(), swap_count * 23);
}

#[test]
fn test_nearby_edge_search_with_flip() {
    let state = State::new(
        [0, 1, 2, 3, 4, 5, 6, 7],
        [0, 0, 0, 0, 0, 0, 0, 0],
        [0, 1, 2, 3, 4, 5, 6, 7, 8, 9, 10, 11],
        [1, 1, 0, 0, 0, 0, 0, 0, 0, 0, 0, 0],
    );
    let original_solution = EdgeInspection::solve_edge_permutation_with_orientation(&state);
    assert!(original_solution.iter().all(|op| matches!(op, EdgeOperation::Flip(_))));
    let searcher = NearbyEdgeOperationSearch::new(original_solution.clone());
    let variants = searcher.explore_variants(&state);
    let flip_count = original_solution.len();
    assert_eq!(variants.len(), flip_count * 11);
}

#[test]
fn test_nearby_edge_search_complex() {
    let state = complex_edge_state();
    let original_solution = EdgeInspection::solve_edge_permutation_with_orientation(&state);
    println!("\n=== Complex Case Original Solution ===");
    let original_modified = ModifiedEdgeSequence::new(original_solution.clone());
    println!("{}", NearbyEdgeOperationSearch::format_variant(&original_modified));
    let searcher = NearbyEdgeOperationSearch::new(original_solution.clone());
    let variants = searcher.explore_variants(&state);
    println!("\n=== Generated {} variants for complex case ===", variants.len());
    let solved_variants: Vec<_> = variants.iter().filter(|(_, final_state)| final_state.is_solved()).collect();
    println!("Found {} solved variants", solved_variants.len());
    if !solved_variants.is_empty() {
        println!("\n--- All solved variant ---");
        for (i, (modified, final_state)) in solved_variants.iter().enumerate() {
            println!("\n--- Solved Variant {} ---", i + 1);
            println!("{}", NearbyEdgeOperationSearch::format_variant(modified));
            println!("Final state solved: {}", final_state.is_solved());
        }
    }
}

#[test]
fn edge_nearby_search_test_does_not_include_original_operation() {
    let state = edge_pair_state();
    let original_solution = EdgeInspection::solve_edge_permutation_with_orientation(&state);
    let searcher = NearbyEdgeOperationSearch::new(original_solution.clone());
    let variants = searcher.explore_variants(&state);
    let original_found = variants.iter().any(|(modified, _)| modified.get_sequence() == original_solution);
    assert!(!original_found, "元の操作列と同じバリエーションが含まれています");
}

#[test]
fn test_two_changes_edge_basic() {
    let state = edge_pair_state();
    let original_solution = EdgeInspection::solve_edge_permutation_with_orientation(&state);
    println!("\n=== Original Solution ===");
    let original_modified = ModifiedEdgeSequence::new(original_solution.clone());
    println!("{}", NearbyEdgeOperationSearch::format_variant(&original_modified));
    let searcher = NearbyEdgeOperationSearch::new(original_solution.clone());
    let variants = searcher.explore_variants_two_changes(&state);
    println!("\n=== Generated {} two-change edge variants ===", variants.len());
    let swap_count = count_edge_swaps(&original_solution);
    let flip_count = count_edge_flips(&original_solution);
    let expected_count = pairs(swap_count) * 23 * 23 + swap_count * flip_count * 23 * 11 + pairs(flip_count) * 11 * 11;
    assert_eq!(variants.len(), expected_count);
}

#[test]
fn test_two_changes_edge_complex() {
    let state = complex_edge_state();
    let original_solution = EdgeInspection::solve_edge_permutation_with_orientation(&state);
    println!("\n=== Complex Case Original Solution ===");
    let original_modified = ModifiedEdgeSequence::new(original_solution.clone());
    println!("{}", NearbyEdgeOperationSearch::format_variant(&original_modified));
    let searcher = NearbyEdgeOperationSearch::new(original_solution.clone());
    let variants = searcher.explore_variants_two_changes(&state);
    println!("\n=== Generated {} two-change edge variants for complex case ===", variants.len());
    let solved_variants: Vec<_> = variants.iter().filter(|(_, final_state)| final_state.is_solved()).collect();
    println!("Found {} solved two-change edge variants", solved_variants.len());
    if !solved_variants.is_empty() {
        println!("\n--- First few solved two-change edge variants ---");
        for (i, (modified, _)) in solved_variants.iter().take(3).enumerate() {
            println!("\n--- Solved Variant {} ---", i + 1);
            println!("{}", NearbyEdgeOperationSearch::format_variant(modified));
        }
    }
}

#[test]
fn test_two_changes_edge_flip_only() {
    let state = State::solved();
    let original_solution = vec![
        EdgeOperation::Flip(EdgeFlipOperation::new(0)),
        EdgeOperation::Flip(EdgeFlipOperation::new(1)),
        EdgeOperation::Flip(EdgeFlipOperation::new(2)),
    ];
    let searcher = NearbyEdgeOperationSearch::new(original_solution);
    let variants = searcher.explore_variants_two_changes(&state);
    assert_eq!(variants.len(), 363);
}

#[test]
fn test_two_changes_edge_mixed_comprehensive() {
    let state = State::solved();
    let original_solution = vec![
        EdgeOperation::Swap(EdgeSwapOperation::new(6, 0, 0)),
        EdgeOperation::Swap(EdgeSwapOperation::new(6, 1, 0)),
        EdgeOperation::Flip(EdgeFlipOperation::new(0)),
        EdgeOperation::Flip(EdgeFlipOperation::new(3)),
    ];
    let searcher = NearbyEdgeOperationSearch::new(original_solution);
    let variants = searcher.explore_variants_two_changes(&state);
    assert_eq!(variants.len(), 1662);
}

#[test]
fn edge_nearby_search_counts_with_flips() {
    let state = State::new(
        [0, 1, 2, 3, 4, 5, 6, 7],
        [0, 0, 0, 0, 0, 0, 0, 0],
        [1, 0, 2, 3, 4, 5, 6, 7, 9, 8, 10, 11],
        [0, 0, 0, 0, 0, 0, 0, 0, 1, 0, 0, 0],
    );
    let operations = EdgeInspection::solve_edge_permutation_with_orientation(&state);
    let searcher = NearbyEdgeOperationSearch::new(operations.clone());
    let variants = searcher.explore_variants(&state);
    assert_eq!(
        variants.len(),
        count_edge_swaps(&operations) * 23 + count_edge_flips(&operations) * 11
    );
}

// ---- edge swap alternative generator ----

#[test]
fn test_does_not_include_original() {
    let generator = EdgeSwapAlternativeGenerator;
    let original = EdgeSwapOperation::new(6, 0, 0);
    let original_mixed = MixedOperation::EdgeSwap(original.clone());
    let alternatives = generator.generate_alternatives(&original_mixed);
    assert!(!alternatives.iter().any(|alt| match alt {
        MixedOperation::EdgeSwap(op) => op == &original,
        _ => false,
    }));
    assert_eq!(alternatives.len(), 21);
}

#[test]
fn test_different_operations_included() {
    let generator = EdgeSwapAlternativeGenerator;
    let original = EdgeSwapOperation::new(6, 0, 0);
    let original_mixed = MixedOperation::EdgeSwap(original);
    let alternatives = generator.generate_alternatives(&original_mixed);
    let expected = EdgeSwapOperation::new(6, 0, 1);
    assert!(alternatives.iter().any(|alt| match alt {
        MixedOperation::EdgeSwap(op) => op == &expected,
        _ => false,
    }));
}

#[test]
fn edge_swap_generator_ignores_other_kinds() {
    let generator = EdgeSwapAlternativeGenerator;
    let flip = MixedOperation::EdgeFlip(EdgeFlipOperation::new(3));
    assert!(generator.generate_alternatives(&flip).is_empty());
}

// ---- move modifiers ----

#[test]
fn test_move_modifier_basic() {
    let modifier = MoveModifier::new(0, NotationMove::U);
    assert_eq!(modifier.step(), 0);
    assert_eq!(modifier.notation_move(), &NotationMove::U);
}

#[test]
fn test_move_modifier_noop() {
    let modifier = MoveModifier::new(0, NotationMove::Noop);
    assert_eq!(modifier.step(), 0);
    assert_eq!(modifier.notation_move(), &NotationMove::Noop);
}

#[test]
fn test_modified_move_sequence() {
    let original = vec![NotationMove::R, NotationMove::U, NotationMove::RPrime];
    let mut modified = ModifiedMoveSequence::new(original.clone());
    modified.add_modifier(MoveModifier::new(0, NotationMove::R2));
    let sequence = modified.get_sequence();
    assert_eq!(sequence.len(), 3);
    assert_eq!(sequence[0], NotationMove::R2);
    assert_eq!(sequence[1], NotationMove::U);
    assert_eq!(sequence[2], NotationMove::RPrime);
    assert!(modified.is_modified(0));
    assert!(!modified.is_modified(1));
    assert!(!modified.is_modified(2));
}

#[test]
fn test_noop_modifier() {
    let original = vec![NotationMove::R, NotationMove::U, NotationMove::RPrime];
    let mut modified = ModifiedMoveSequence::new(original);
    modified.add_modifier(MoveModifier::new(1, NotationMove::Noop));
    let sequence = modified.get_sequence();
    assert_eq!(sequence.len(), 2);
    assert_eq!(sequence[0], NotationMove::R);
    assert_eq!(sequence[1], NotationMove::RPrime);
}

#[test]
fn move_modifier_test_display_formatting() {
    let original = vec![NotationMove::R, NotationMove::U, NotationMove::RPrime, NotationMove::D];
    let mut modified = ModifiedMoveSequence::new(original);
    modified.add_modifier(MoveModifier::new(0, NotationMove::R2));
    let display = modified.to_display_string();
    println!("Display output: {}", display);
    assert!(display.contains("**R2**"));
    assert!(display.contains("U"));
    assert!(display.contains("R'"));
    assert!(display.contains("D"));
}

#[test]
fn test_display_with_noop() {
    let original = vec![NotationMove::R, NotationMove::U, NotationMove::RPrime];
    let mut modified = ModifiedMoveSequence::new(original);
    modified.add_modifier(MoveModifier::new(1, NotationMove::Noop));
    let display = modified.to_display_string();
    println!("Display output: {}", display);
    assert!(display.contains("****"));
    assert!(display.contains("R"));
    assert!(display.contains("R'"));
}

#[test]
fn move_sequence_display_exact_text() {
    let original = vec![NotationMove::R, NotationMove::U, NotationMove::RPrime];
    let mut modified = ModifiedMoveSequence::new(original);
    modified.add_modifier(MoveModifier::new(1, NotationMove::Noop));
    assert_eq!(modified.to_display_string(), "{R **** R'}");
    let state = modified.apply_to_state(&State::solved());
    assert!(state.is_solved());
}

// ---- collection modifiers ----

#[test]
fn test_collection_modifier_basic() {
    let original_seq = vec![NotationMove::R, NotationMove::U];
    let mut modified_seq = ModifiedMoveSequence::new(original_seq);
    modified_seq.add_modifier(MoveModifier::new(0, NotationMove::R2));
    let modifier = CollectionModifier::new(0, modified_seq);
    assert_eq!(modifier.sequence_index(), 0);
}

#[test]
fn test_modified_collection_basic() {
    let original_collection = vec![vec![NotationMove::R, NotationMove::U], vec![NotationMove::D, NotationMove::L]];
    let mut modified_collection = ModifiedMoveSequenceCollection::new(original_collection.clone());
    let mut modified_seq = ModifiedMoveSequence::new(original_collection[0].clone());
    modified_seq.add_modifier(MoveModifier::new(0, NotationMove::R2));
    modified_collection.add_modifier(CollectionModifier::new(0, modified_seq));
    let collection = modified_collection.get_collection();
    assert_eq!(collection.len(), 2);
    assert_eq!(collection[0][0], NotationMove::R2);
    assert_eq!(collection[0][1], NotationMove::U);
    assert_eq!(collection[1][0], NotationMove::D);
    assert_eq!(collection[1][1], NotationMove::L);
    assert!(modified_collection.is_modified(0));
    assert!(!modified_collection.is_modified(1));
}

#[test]
fn test_apply_to_state() {
    let original_collection = vec![vec![NotationMove::R], vec![NotationMove::U]];
    let modified_collection = ModifiedMoveSequenceCollection::new(original_collection);
    let initial_state = State::solved();
    let final_state = modified_collection.apply_to_state(&initial_state);
    assert_ne!(final_state, initial_state);
}

#[test]
fn collection_modifier_test_display_formatting() {
    let original_collection = vec![vec![NotationMove::R, NotationMove::U], vec![NotationMove::D, NotationMove::L]];
    let mut modified_collection = ModifiedMoveSequenceCollection::new(original_collection.clone());
    let mut modified_seq = ModifiedMoveSequence::new(original_collection[0].clone());
    modified_seq.add_modifier(MoveModifier::new(0, NotationMove::R2));
    modified_collection.add_modifier(CollectionModifier::new(0, modified_seq));
    let display = modified_collection.to_display_string();
    println!("{}", display);
    assert!(display.contains("**R2**"));
    assert!(display.contains("Sequence #1"));
    assert!(display.contains("Sequence #2"));
}

// ---- notation alternatives and sequence search ----

#[test]
fn test_u_group_alternatives() {
    let generator = SameGroupAlternativeGenerator::new();
    let alternatives = generator.generate_alternatives(&NotationMove::U);
    assert_eq!(alternatives.len(), 5);
    assert!(alternatives.contains(&NotationMove::UPrime));
    assert!(alternatives.contains(&NotationMove::U2));
    assert!(alternatives.contains(&NotationMove::UWide));
    assert!(alternatives.contains(&NotationMove::UWidePrime));
    assert!(alternatives.contains(&NotationMove::UWide2));
    assert!(!alternatives.contains(&NotationMove::U));
}

#[test]
fn test_u2_alternatives() {
    let generator = SameGroupAlternativeGenerator::new();
    let alternatives = generator.generate_alternatives(&NotationMove::U2);
    assert_eq!(alternatives.len(), 5);
    assert!(alternatives.contains(&NotationMove::U));
    assert!(alternatives.contains(&NotationMove::UPrime));
    assert!(!alternatives.contains(&NotationMove::U2));
}

#[test]
fn test_m_group_alternatives() {
    let generator = SameGroupAlternativeGenerator::new();
    let alternatives = generator.generate_alternatives(&NotationMove::M);
    assert_eq!(alternatives.len(), 2);
    assert!(alternatives.contains(&NotationMove::MPrime));
    assert!(alternatives.contains(&NotationMove::M2));
    assert!(!alternatives.contains(&NotationMove::M));
}

#[test]
fn test_all_groups_have_alternatives() {
    let generator = SameGroupAlternativeGenerator::new();
    let test_moves = vec![
        NotationMove::U,
        NotationMove::D,
        NotationMove::L,
        NotationMove::R,
        NotationMove::F,
        NotationMove::B,
        NotationMove::M,
        NotationMove::S,
        NotationMove::E,
    ];
    for mv in test_moves {
        let alternatives = generator.generate_alternatives(&mv);
        assert!(!alternatives.is_empty(), "Move {:?} should have alternatives", mv);
    }
}

#[test]
fn noop_has_no_alternatives() {
    let generator = SameGroupAlternativeGenerator::new();
    assert!(generator.generate_alternatives(&NotationMove::Noop).is_empty());
}

#[test]
fn test_nearby_sequence_search_basic() {
    let sequence = vec![NotationMove::R, NotationMove::U, NotationMove::RPrime];
    let generator = Box::new(SameGroupAlternativeGenerator::new());
    let search = NearbySequenceSearch::new(sequence, generator);
    let initial_state = State::solved();
    let variants = search.explore_variants_one_change(&initial_state);
    assert_eq!(variants.len(), 18);
}

#[test]
fn test_alternatives_include_noop() {
    let sequence = vec![NotationMove::U];
    let generator = Box::new(SameGroupAlternativeGenerator::new());
    let search = NearbySequenceSearch::new(sequence, generator);
    let initial_state = State::solved();
    let variants = search.explore_variants_one_change(&initial_state);
    assert_eq!(variants.len(), 6);
    let has_noop = variants.iter().any(|(modified, _)| {
        let seq = modified.get_sequence();
        seq.is_empty()
    });
    assert!(has_noop);
}

#[test]
fn test_state_changes() {
    let sequence = vec![NotationMove::R];
    let generator = Box::new(SameGroupAlternativeGenerator::new());
    let search = NearbySequenceSearch::new(sequence, generator);
    let initial_state = State::solved();
    let variants = search.explore_variants_one_change(&initial_state);
    for (modified, final_state) in &variants {
        let seq = modified.get_sequence();
        if !seq.is_empty() {
            println!("Sequence: {:?}, Changed: {}", seq, final_state != &initial_state);
        }
    }
}

#[test]
fn sequence_search_noop_variant_keeps_state() {
    let sequence = vec![NotationMove::R];
    let search = NearbySequenceSearch::new(sequence, Box::new(SameGroupAlternativeGenerator::new()));
    let variants = search.explore_variants_one_change(&State::solved());
    let last = variants.last().unwrap();
    assert!(last.0.get_sequence().is_empty());
    assert!(last.1.is_solved());
}

// ---- wrong operation detector ----

#[test]
fn test_wrong_operation_detection_two_changes() {
    let initial_state = State::new(
        [1, 2, 0, 3, 4, 5, 6, 7],
        [0, 0, 0, 0, 0, 0, 0, 0],
        [0, 1, 2, 3, 4, 5, 6, 7, 8, 9, 10, 11],
        [0, 0, 0, 0, 0, 0, 0, 0, 0, 0, 0, 0],
    );
    let detector = WrongOperationDetector::new(initial_state.clone());
    println!("\n=== Wrong Operation Detection Test (Two Changes) ===");
    println!("Correct solution:");
    for (i, op) in detector.correct_solution().iter().enumerate() {
        println!("  Step {}: {}", i + 1, op.to_display_string());
    }
    println!("\nTotal variants generated: {}", detector.variant_count());
    assert!(detector.variant_count() > 0, "Should generate some variants");
}

#[test]
fn test_no_match_case() {
    let detector = WrongOperationDetector::new(one_swap_state());
    let unrelated_state = State::new(
        [7, 6, 5, 4, 3, 2, 1, 0],
        [2, 2, 2, 2, 1, 1, 1, 1],
        [0, 1, 2, 3, 4, 5, 6, 7, 8, 9, 10, 11],
        [0, 0, 0, 0, 0, 0, 0, 0, 0, 0, 0, 0],
    );
    let detected = detector.detect_wrong_operation(&unrelated_state);
    assert!(detected.is_empty(), "Should not detect any matching operation");
    println!("\n=== No Match Case (Two Changes) ===");
    println!("{}", detector.format_detection_result(&unrelated_state));
}

#[test]
fn test_complex_case_detection() {
    let initial_state = complex_corner_state();
    let detector = WrongOperationDetector::new(initial_state.clone());
    println!("\n=== Complex Case Detection Test ===");
    println!("\nScramble: U' F U2 D2 F' U B U F U D2 F' B' D2 F' U2 D2 B");
    println!("\nCorrect solution:");
    for (i, op) in detector.correct_solution().iter().enumerate() {
        println!("  Step {}: {}", i + 1, op.to_display_string());
    }
    println!("\nTotal variants generated: {}", detector.variant_count());
    let wrong_state = State::new(
        [0, 1, 2, 3, 4, 5, 6, 7],
        [0, 0, 1, 2, 0, 0, 0, 0],
        [0, 1, 2, 3, 4, 5, 6, 7, 8, 9, 10, 11],
        [0, 0, 0, 0, 0, 0, 0, 0, 0, 0, 0, 0],
    );
    println!("\n{}", detector.format_detection_result(&wrong_state));
}

#[test]
fn test_two_operations_changed_detection() {
    let initial_state = complex_corner_state();
    let detector = WrongOperationDetector::new(initial_state.clone());
    let correct_solution = detector.correct_solution();
    println!("\n=== Two Operations Changed Detection Test ===");
    println!("Correct solution has {} steps", correct_solution.len());
    let swap_count = count_corner_swaps(correct_solution);
    let twist_count = count_corner_twists(correct_solution);
    println!("Swaps: {}, Twists: {}", swap_count, twist_count);
    let expected_swap_swap = pairs(swap_count) * 24 * 24;
    let expected_swap_twist = swap_count * twist_count * 24 * 16;
    let expected_twist_twist = pairs(twist_count) * 16 * 16;
    let expected_total = expected_swap_swap + expected_swap_twist + expected_twist_twist;
    println!("\nExpected variants:");
    println!("  Swap × Swap:   {}", expected_swap_swap);
    println!("  Swap × Twist:  {}", expected_swap_twist);
    println!("  Twist × Twist: {}", expected_twist_twist);
    println!("  Total:         {}", expected_total);
    println!("\nActual variants: {}", detector.variant_count());
    assert_eq!(detector.variant_count(), expected_total, "Variant count mismatch");
}

#[test]
fn detector_finds_a_single_wrong_swap() {
    let initial_state = State::new(
        [1, 2, 0, 3, 4, 5, 6, 7],
        [0, 0, 0, 0, 0, 0, 0, 0],
        [0, 1, 2, 3, 4, 5, 6, 7, 8, 9, 10, 11],
        [0, 0, 0, 0, 0, 0, 0, 0, 0, 0, 0, 0],
    );
    let detector = WrongOperationDetector::new(initial_state.clone());
    let solution = detector.correct_solution().to_vec();
    assert!(solution.len() >= 2);
    let mut wrong_ops = solution.clone();
    wrong_ops[0] = CornerOperation::Swap(CornerSwapOperation::new(2, 5, 1));
    wrong_ops[1] = CornerOperation::Swap(CornerSwapOperation::new(2, 3, 0));
    let mut wrong_state = initial_state.clone();
    for op in &wrong_ops {
        wrong_state = op.apply(&wrong_state);
    }
    let detected = detector.detect_wrong_operation(&wrong_state);
    assert!(detected.iter().any(|m| m.get_sequence() == wrong_ops));
    let report = detector.format_detection_result(&wrong_state);
    assert!(report.starts_with("Initial State:\n  cp: [1, 2, 0, 3, 4, 5, 6, 7]\n"));
    assert!(report.contains("Possibility 1:\nDid you apply:\n"));
    assert_eq!(detector.initial_state(), &initial_state);
}

#[test]
fn test_insufficient_operations() {
    let detector = WrongOperationDetector::new(one_swap_state());
    assert_eq!(detector.variant_count(), 0, "Should generate 0 variants when only 1 operation exists");
    println!("\n=== Insufficient Operations Test ===");
    println!("Operations needed: {}", detector.correct_solution().len());
    println!("Variants generated: {}", detector.variant_count());
}

#[test]
fn corner_solution_swaps_through_slot_zero() {
    let state = State::new(
        [3, 1, 2, 0, 5, 7, 4, 6],
        [0, 0, 0, 0, 0, 0, 0, 0],
        [0, 1, 2, 3, 4, 5, 6, 7, 8, 9, 10, 11],
        [0, 0, 0, 0, 0, 0, 0, 0, 0, 0, 0, 0],
    );
    let ops = CornerInspection::solve_corner_permutation_with_orientation(&state);
    let expected: Vec<CornerOperation> =
        [3, 4, 5, 7, 6, 4].iter().map(|&t| CornerOperation::Swap(CornerSwapOperation::new(0, t, 0))).collect();
    assert_eq!(ops, expected);
    assert_eq!(
        CornerInspection::solve_corner_permutation_with_orientation(&one_swap_state()),
        vec![CornerOperation::Swap(CornerSwapOperation::new(0, 1, 0))]
    );
}

#[test]
fn edge_solution_swaps_through_slot_eight() {
    let ops = EdgeInspection::solve_edge_permutation_with_orientation(&edge_pair_state());
    assert_eq!(
        ops,
        vec![
            EdgeOperation::Swap(EdgeSwapOperation::new(8, 9, 0)),
            EdgeOperation::Swap(EdgeSwapOperation::new(8, 0, 0)),
            EdgeOperation::Swap(EdgeSwapOperation::new(8, 1, 0)),
            EdgeOperation::Swap(EdgeSwapOperation::new(8, 0, 0)),
        ]
    );
}
