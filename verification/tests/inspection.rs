use rubiks_cube_simulator::inspection::operations_to_turns::{MoveSequence, MoveSequenceCollection, OperationsToTurns};
use rubiks_cube_simulator::{
    parse_sequence, CornerInspection, CornerOperation, CornerSwapOperation, CornerTwistOperation, EdgeFlipOperation,
    EdgeInspection, EdgeOperation, EdgeSwapOperation, State,
};

#[test]
fn test_cp_only_example() {
    let state = State::new([3, 1, 2, 0, 5, 7, 4, 6], [0, 0, 0, 0, 0, 0, 0, 0], [0, 1, 2, 3, 4, 5, 6, 7, 8, 9, 10, 11], [0, 0, 0, 0, 0, 0, 0, 0, 0, 0, 0, 0]);
    let operations = CornerInspection::solve_corner_permutation_with_orientation(&state);
    let mut current_state = state.clone();
    for (i, op) in operations.iter().enumerate() {
        println!("Step {}: {}", i + 1, op.to_display_string());
        current_state = op.apply(&current_state);
    }
    assert_eq!(current_state.cp, [0, 1, 2, 3, 4, 5, 6, 7]);
    assert_eq!(current_state.co, [0, 0, 0, 0, 0, 0, 0, 0]);
    assert!(current_state.is_solved());
}

#[test]
fn corner_solver_test_with_orientation() {
    let state = State::new([1, 0, 2, 3, 4, 5, 6, 7], [1, 2, 0, 0, 0, 0, 0, 0], [0, 1, 2, 3, 4, 5, 6, 7, 8, 9, 10, 11], [0, 0, 0, 0, 0, 0, 0, 0, 0, 0, 0, 0]);
    let operations = CornerInspection::solve_corner_permutation_with_orientation(&state);
    let mut current_state = state.clone();
    for (i, op) in operations.iter().enumerate() {
        println!("Step {}: {}", i + 1, op.to_display_string());
        current_state = op.apply(&current_state);
    }
    assert_eq!(current_state.cp, [0, 1, 2, 3, 4, 5, 6, 7]);
    assert_eq!(current_state.co, [0, 0, 0, 0, 0, 0, 0, 0]);
    assert!(current_state.is_solved());
}

#[test]
fn test_twist_only() {
    let state = State::new([0, 1, 2, 3, 4, 5, 6, 7], [1, 2, 0, 0, 0, 0, 0, 0], [0, 1, 2, 3, 4, 5, 6, 7, 8, 9, 10, 11], [0, 0, 0, 0, 0, 0, 0, 0, 0, 0, 0, 0]);
    let operations = CornerInspection::solve_corner_permutation_with_orientation(&state);
    assert!(operations.iter().all(|op| matches!(op, CornerOperation::Twist(_))));
    let mut current_state = state.clone();
    for (i, op) in operations.iter().enumerate() {
        println!("Step {}: {}", i + 1, op.to_display_string());
        current_state = op.apply(&current_state);
    }
    assert_eq!(current_state.cp, [0, 1, 2, 3, 4, 5, 6, 7]);
    assert_eq!(current_state.co, [0, 0, 0, 0, 0, 0, 0, 0]);
    assert!(current_state.is_solved());
}

#[test]
fn corner_solver_test_complex_case() {
    let state = State::new([1, 0, 6, 2, 5, 4, 3, 7], [2, 1, 0, 2, 2, 2, 2, 1], [0, 1, 2, 3, 4, 5, 6, 7, 8, 9, 10, 11], [0, 0, 0, 0, 0, 0, 0, 0, 0, 0, 0, 0]);
    let operations = CornerInspection::solve_corner_permutation_with_orientation(&state);
    println!("{}", CornerInspection::format_operations(&operations));
    let mut current_state = state.clone();
    for (i, op) in operations.iter().enumerate() {
        println!("Step {}: {}", i + 1, op.to_display_string());
        current_state = op.apply(&current_state);
    }
    assert_eq!(current_state.cp, [0, 1, 2, 3, 4, 5, 6, 7]);
    assert_eq!(current_state.co, [0, 0, 0, 0, 0, 0, 0, 0]);
    assert!(current_state.is_solved());
}

#[test]
fn corner_solver_test_debug_step_by_step() {
    let state = State::new([3, 1, 2, 0, 5, 7, 4, 6], [2, 1, 0, 1, 0, 2, 1, 0], [0, 1, 2, 3, 4, 5, 6, 7, 8, 9, 10, 11], [0, 0, 0, 0, 0, 0, 0, 0, 0, 0, 0, 0]);
    let operations = CornerInspection::solve_corner_permutation_with_orientation(&state);
    let mut current_state = state.clone();
    for (i, op) in operations.iter().enumerate() {
        println!("Step {}: {}", i + 1, op.to_display_string());
        current_state = op.apply(&current_state);
    }
    assert_eq!(current_state.cp, [0, 1, 2, 3, 4, 5, 6, 7]);
    assert_eq!(current_state.co, [0, 0, 0, 0, 0, 0, 0, 0]);
    assert!(current_state.is_solved());
}

#[test]
fn corner_solver_test_already_solved() {
    let state = State::solved();
    let operations = CornerInspection::solve_corner_permutation_with_orientation(&state);
    assert!(operations.is_empty());
}

#[test]
fn test_ep_only_example() {
    let state = State::new([0, 1, 2, 3, 4, 5, 6, 7], [0, 0, 0, 0, 0, 0, 0, 0], [1, 0, 2, 3, 4, 5, 6, 7, 9, 8, 10, 11], [0, 0, 0, 0, 0, 0, 0, 0, 0, 0, 0, 0]);
    let operations = EdgeInspection::solve_edge_permutation_with_orientation(&state);
    let mut current_state = state.clone();
    for (i, op) in operations.iter().enumerate() {
        println!("Step {}: {}", i + 1, op.to_display_string());
        current_state = op.apply(&current_state);
    }
    assert_eq!(current_state.ep, [0, 1, 2, 3, 4, 5, 6, 7, 8, 9, 10, 11]);
    assert_eq!(current_state.eo, [0, 0, 0, 0, 0, 0, 0, 0, 0, 0, 0, 0]);
    assert!(current_state.is_solved());
}

#[test]
fn edge_solver_test_with_orientation() {
    let state = State::new([0, 1, 2, 3, 4, 5, 6, 7], [0, 0, 0, 0, 0, 0, 0, 0], [1, 0, 2, 3, 4, 5, 6, 7, 8, 9, 10, 11], [1, 1, 0, 0, 0, 0, 0, 0, 0, 0, 0, 0]);
    let operations = EdgeInspection::solve_edge_permutation_with_orientation(&state);
    let mut current_state = state.clone();
    for (i, op) in operations.iter().enumerate() {
        println!("Step {}: {}", i + 1, op.to_display_string());
        current_state = op.apply(&current_state);
    }
    assert_eq!(current_state.ep, [0, 1, 2, 3, 4, 5, 6, 7, 8, 9, 10, 11]);
    assert_eq!(current_state.eo, [0, 0, 0, 0, 0, 0, 0, 0, 0, 0, 0, 0]);
    assert!(current_state.is_solved());
}

#[test]
fn test_flip_only() {
    let state = State::new([0, 1, 2, 3, 4, 5, 6, 7], [0, 0, 0, 0, 0, 0, 0, 0], [0, 1, 2, 3, 4, 5, 6, 7, 8, 9, 10, 11], [1, 1, 0, 0, 0, 0, 0, 0, 0, 0, 0, 0]);
    let operations = EdgeInspection::solve_edge_permutation_with_orientation(&state);
    assert!(operations.iter().all(|op| matches!(op, EdgeOperation::Flip(_))));
    let mut current_state = state.clone();
    for (i, op) in operations.iter().enumerate() {
        println!("Step {}: {}", i + 1, op.to_display_string());
        current_state = op.apply(&current_state);
    }
    assert_eq!(current_state.ep, [0, 1, 2, 3, 4, 5, 6, 7, 8, 9, 10, 11]);
    assert_eq!(current_state.eo, [0, 0, 0, 0, 0, 0, 0, 0, 0, 0, 0, 0]);
    assert!(current_state.is_solved());
}

#[test]
fn edge_solver_test_complex_case() {
    let state = State::new([0, 1, 2, 3, 4, 5, 6, 7], [0, 0, 0, 0, 0, 0, 0, 0], [1, 0, 6, 2, 5, 4, 3, 7, 9, 10, 11, 8], [1, 1, 0, 1, 1, 1, 1, 0, 1, 0, 1, 0]);
    let operations = EdgeInspection::solve_edge_permutation_with_orientation(&state);
    println!("{}", EdgeInspection::format_operations(&operations));
    let mut current_state = state.clone();
    for (i, op) in operations.iter().enumerate() {
        println!("Step {}: {}", i + 1, op.to_display_string());
        current_state = op.apply(&current_state);
    }
    assert_eq!(current_state.ep, [0, 1, 2, 3, 4, 5, 6, 7, 8, 9, 10, 11]);
    assert_eq!(current_state.eo, [0, 0, 0, 0, 0, 0, 0, 0, 0, 0, 0, 0]);
    assert!(current_state.is_solved());
}

#[test]
fn edge_solver_test_debug_step_by_step() {
    let state = State::new([0, 1, 2, 3, 4, 5, 6, 7], [0, 0, 0, 0, 0, 0, 0, 0], [3, 1, 2, 0, 5, 7, 4, 6, 9, 8, 10, 11], [1, 0, 1, 1, 0, 1, 1, 0, 1, 0, 1, 0]);
    let operations = EdgeInspection::solve_edge_permutation_with_orientation(&state);
    let mut current_state = state.clone();
    for (i, op) in operations.iter().enumerate() {
        println!("Step {}: {}", i + 1, op.to_display_string());
        current_state = op.apply(&current_state);
    }
    assert_eq!(current_state.ep, [0, 1, 2, 3, 4, 5, 6, 7, 8, 9, 10, 11]);
    assert_eq!(current_state.eo, [0, 0, 0, 0, 0, 0, 0, 0, 0, 0, 0, 0]);
    assert!(current_state.is_solved());
}

#[test]
fn edge_solver_test_already_solved() {
    let state = State::solved();
    let operations = EdgeInspection::solve_edge_permutation_with_orientation(&state);
    assert!(operations.is_empty());
}

#[test]
fn corner_solution_goes_through_the_buffer() {
    let state = State::new([1, 0, 2, 3, 4, 5, 6, 7], [0, 0, 0, 0, 0, 0, 0, 0], [0, 1, 2, 3, 4, 5, 6, 7, 8, 9, 10, 11], [0; 12]);
    let operations = CornerInspection::solve_corner_permutation_with_orientation(&state);
    assert_eq!(
        operations,
        vec![CornerOperation::Swap(CornerSwapOperation::new(0, 1, 0))]
    );
    assert_eq!(CornerInspection::format_operations(&operations), "Step 1: Swap: 0 ↔ 1 (ori: 0)");
}

#[test]
fn edge_operation_texts() {
    assert_eq!(EdgeOperation::Swap(EdgeSwapOperation::new(6, 2, 1)).to_display_string(), "Swap: UF ↔ RF");
    assert_eq!(EdgeOperation::Flip(EdgeFlipOperation::new(4)).to_display_string(), "Flip: UB (flipped)");
    assert_eq!(CornerOperation::Twist(CornerTwistOperation::new(3, 1)).to_display_string(), "Twist: corner[3] (ori: 1)");
}

const TEST_UFR_EXPANDED: &str = r#"{
    "RDB": {
        "RDF": "D' R U R' D R U' R'"
    },
    "RDF": {
        "UFL": "U' R' D' R U R' D R"
    }
}"#;

const TEST_UFR_PARITY: &str = r#"{
    "RDB": "U2 D' R' F R2 U' R' U' R U R' F' R U R' U D"
}"#;

const TEST_UFR_TWIST: &str = r#"{
    "FUL": "R' D R D' R' D R U' R' D' R D R' D' R U"
}"#;

const TEST_UF_EXPANDED: &str = r#"{
    "FR": {
        "DL": "R U R' F R F'",
        "DR": "U' R U R'"
    },
    "DR": {
        "UL": "R2 F R2 F'"
    }
}"#;

const TEST_UF_FLIP: &str = r#"{
    "UB": "R U R' U R U2 R'",
    "UR": "R U R' U R U2 R' U"
}"#;

fn converter() -> OperationsToTurns {
    OperationsToTurns::new(TEST_UFR_EXPANDED, TEST_UFR_PARITY, TEST_UFR_TWIST, TEST_UF_EXPANDED, TEST_UF_FLIP)
        .expect("Failed to create converter")
}

#[test]
fn test_convert_two_swaps() {
    let converter = converter();
    let operations = vec![
        CornerOperation::Swap(CornerSwapOperation::new(2, 5, 2)),
        CornerOperation::Swap(CornerSwapOperation::new(2, 6, 1)),
    ];
    let collection = converter.convert(&operations).expect("Failed to convert");
    assert_eq!(collection.len(), 1);
    let sequences = collection.sequences();
    assert_eq!(sequences[0].description, "RDB → RDF");
    assert_eq!(sequences[0].moves, parse_sequence("D' R U R' D R U' R'").unwrap());
}

#[test]
fn test_convert_single_swap() {
    let converter = converter();
    let operations = vec![CornerOperation::Swap(CornerSwapOperation::new(2, 5, 2))];
    let collection = converter.convert(&operations).expect("Failed to convert");
    assert_eq!(collection.len(), 1);
    let sequences = collection.sequences();
    assert_eq!(sequences[0].description, "Parity: RDB");
}

#[test]
fn test_convert_twist() {
    let converter = converter();
    let operations = vec![CornerOperation::Twist(CornerTwistOperation::new(3, 1))];
    let collection = converter.convert(&operations).expect("Failed to convert");
    assert_eq!(collection.len(), 1);
    let sequences = collection.sequences();
    assert_eq!(sequences[0].description, "Twist: FUL");
    assert_eq!(sequences[0].moves, parse_sequence("R' D R D' R' D R U' R' D' R D R' D' R U").unwrap());
}

#[test]
fn operations_to_turns_test_mixed_operations() {
    let converter = converter();
    let operations = vec![
        CornerOperation::Swap(CornerSwapOperation::new(2, 5, 2)),
        CornerOperation::Swap(CornerSwapOperation::new(2, 6, 1)),
        CornerOperation::Twist(CornerTwistOperation::new(3, 1)),
    ];
    let collection = converter.convert(&operations).expect("Failed to convert");
    assert_eq!(collection.len(), 2);
    let sequences = collection.sequences();
    assert_eq!(sequences[0].description, "RDB → RDF");
    assert_eq!(sequences[1].description, "Twist: FUL");
}

#[test]
fn test_collection_operations() {
    let seq1 = MoveSequence::new(vec![], "First".to_string());
    let seq2 = MoveSequence::new(vec![], "Second".to_string());
    let seq3 = MoveSequence::new(vec![], "Third".to_string());
    let mut collection = MoveSequenceCollection::new();
    collection.push(seq1);
    collection.push(seq2);
    assert_eq!(collection.len(), 2);
    assert!(!collection.is_empty());
    let collection2 = MoveSequenceCollection::from_single(seq3);
    collection.extend(collection2);
    assert_eq!(collection.len(), 3);
    let descriptions = collection.flatten_description(", ");
    assert_eq!(descriptions, "First, Second, Third");
}

#[test]
fn test_collection_iteration() {
    let seq1 = MoveSequence::new(vec![], "First".to_string());
    let seq2 = MoveSequence::new(vec![], "Second".to_string());
    let collection = MoveSequenceCollection::from_vec(vec![seq1, seq2]);
    let mut count = 0;
    for seq in collection.sequences() {
        count += 1;
        assert!(!seq.description.is_empty());
    }
    assert_eq!(count, 2);
}

#[test]
fn test_convert_two_edge_swaps() {
    let converter = converter();
    let operations = vec![
        EdgeOperation::Swap(EdgeSwapOperation::new(6, 2, 0)),
        EdgeOperation::Swap(EdgeSwapOperation::new(6, 11, 0)),
    ];
    let collection = converter.convert_edge_operations(&operations).expect("Failed to convert");
    assert_eq!(collection.len(), 1);
    let sequences = collection.sequences();
    assert_eq!(sequences[0].description, "FR → DL");
    assert_eq!(sequences[0].moves, parse_sequence("R U R' F R F'").unwrap());
}

#[test]
fn test_convert_edge_flip() {
    let converter = converter();
    let operations = vec![EdgeOperation::Flip(EdgeFlipOperation::new(4))];
    let collection = converter.convert_edge_operations(&operations).expect("Failed to convert");
    assert_eq!(collection.len(), 1);
    let sequences = collection.sequences();
    assert_eq!(sequences[0].description, "Flip: UB");
    assert_eq!(sequences[0].moves, parse_sequence("R U R' U R U2 R'").unwrap());
}

#[test]
fn test_mixed_edge_operations() {
    let converter = converter();
    let operations = vec![
        EdgeOperation::Swap(EdgeSwapOperation::new(6, 2, 0)),
        EdgeOperation::Swap(EdgeSwapOperation::new(6, 9, 0)),
        EdgeOperation::Flip(EdgeFlipOperation::new(5)),
    ];
    let collection = converter.convert_edge_operations(&operations).expect("Failed to convert");
    assert_eq!(collection.len(), 2);
    let sequences = collection.sequences();
    assert_eq!(sequences[0].description, "FR → DR");
    assert_eq!(sequences[1].description, "Flip: UR");
}

#[test]
fn test_collection_display() {
    let converter = converter();
    let operations = vec![
        CornerOperation::Swap(CornerSwapOperation::new(2, 5, 2)),
        CornerOperation::Swap(CornerSwapOperation::new(2, 6, 1)),
        CornerOperation::Twist(CornerTwistOperation::new(3, 1)),
    ];
    let collection = converter.convert(&operations).expect("Failed to convert");
    let display = collection.to_display_string();
    println!("\n=== Display Output ===\n{}", display);
    assert!(display.contains('\n'));
    assert!(display.contains("// RDB → RDF"));
    assert!(display.contains("// Twist: FUL"));
}

#[test]
fn missing_parity_entry_is_reported() {
    let converter = converter();
    let operations = vec![CornerOperation::Swap(CornerSwapOperation::new(2, 4, 0))];
    assert_eq!(
        converter.convert(&operations).unwrap_err(),
        "Parity move not found for target_sticker: DBL"
    );
    let twist = vec![CornerOperation::Twist(CornerTwistOperation::new(0, 1))];
    assert_eq!(converter.convert(&twist).unwrap_err(), "Twist move not found for target_sticker: LUB");
    let flip = vec![EdgeOperation::Flip(EdgeFlipOperation::new(0))];
    assert_eq!(converter.convert_edge_operations(&flip).unwrap_err(), "Flip move not found for target_sticker: BL");
}

#[test]
fn lone_edge_swap_gives_no_run() {
    let converter = converter();
    let operations = vec![EdgeOperation::Swap(EdgeSwapOperation::new(6, 0, 0))];
    let collection = converter.convert_edge_operations(&operations).expect("Failed to convert");
    assert!(collection.is_empty());
}

#[test]
fn unreadable_tables_are_reported() {
    let bad = OperationsToTurns::new(TEST_UFR_EXPANDED, "not json", TEST_UFR_TWIST, TEST_UF_EXPANDED, TEST_UF_FLIP);
    let message = bad.err().unwrap();
    assert!(message.starts_with("Failed to parse ufr_parity: "));
    let bad_top = OperationsToTurns::new("[", TEST_UFR_PARITY, TEST_UFR_TWIST, TEST_UF_EXPANDED, TEST_UF_FLIP);
    assert!(bad_top.is_err());
}

#[test]
fn unreadable_algorithm_is_reported() {
    let c = OperationsToTurns::new(TEST_UFR_EXPANDED, r#"{"RDB": "R Q"}"#, TEST_UFR_TWIST, TEST_UF_EXPANDED, TEST_UF_FLIP)
        .unwrap();
    let operations = vec![CornerOperation::Swap(CornerSwapOperation::new(2, 5, 2))];
    assert_eq!(c.convert(&operations).unwrap_err(), "Unknown move: Q");
}

#[test]
fn collection_into_single_joins_runs() {
    let a = MoveSequence::new(parse_sequence("R U").unwrap(), "A".to_string());
    let b = MoveSequence::new(parse_sequence("D").unwrap(), String::new());
    let c = MoveSequence::new(parse_sequence("F'").unwrap(), "C".to_string());
    let collection = MoveSequenceCollection::from_vec(vec![a, b, c]);
    assert_eq!(collection.flatten_moves(), parse_sequence("R U D F'").unwrap());
    assert_eq!(collection.to_display_string(), "// A\nR U\nD\n// C\nF'");
    let single = collection.into_single();
    assert_eq!(single.moves, parse_sequence("R U D F'").unwrap());
    assert_eq!(single.description, "A, C");
    let mut m = MoveSequence::empty();
    m.extend(MoveSequence::new(parse_sequence("U").unwrap(), "X".to_string()));
    m.extend(MoveSequence::new(parse_sequence("U2").unwrap(), "Y".to_string()));
    assert_eq!(m.description, "X, Y");
    assert_eq!(m.to_display_string(), "U U2");
}
