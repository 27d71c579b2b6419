use rubiks_cube_simulator::cli_state_input::{EditorAction, EditorKey, StateField};
use rubiks_cube_simulator::cube::apply_notation_move;
use rubiks_cube_simulator::inspection::{CornerInspection, CornerOperation, CornerSwapOperation, EdgeInspection};
use rubiks_cube_simulator::parse_sequence;
use rubiks_cube_simulator::workflow::{
    BldWorkflow, MixedNearbySearchWorkflow, NearbySequenceSearchWorkflow, Operation,
};
use rubiks_cube_simulator::{
    cube_net_lines, CubeColor, CubeDisplay, Face, NotationMove, State, StateInputEditor,
    StateToDisplay,
};

const UFR_EXPANDED: &str = r#"{
    "RDB": { "RDF": "R U R' U R U2 R'" },
    "RDF": { "UFL": "U R U' R' U R U2 R'" },
    "UBR": { "UBL": "L' U' L U' L' U2 L" },
    "BUR": { "BUL": "U L' U L U' L' U2 L" }
}"#;

const UFR_PARITY: &str = r#"{
    "RDB": "R U R' U R U2 R'",
    "UBR": "R U R' U R U2 R'",
    "RUB": "U R U' R' U R U2 R'",
    "BUR": "R U2 R' U' R U' R'",
    "UBL": "L' U' L U' L' U2 L",
    "BUL": "U' L' U L U' L' U2 L",
    "LUB": "L' U2 L U L' U L"
}"#;

const UFR_TWIST: &str = r#"{
    "FUL": "R' D R D' R' D R U' R' D' R D R' D' R U"
}"#;

const UF_EXPANDED: &str = r#"{
    "FR": { "DL": "R U R' F R F'" },
    "RU": { "BL": "U R U' R' U R U R'" }
}"#;

const UF_FLIP: &str = r#"{
    "UB": "R U R' U R U2 R'",
    "UR": "R U R' U R U2 R' U"
}"#;

fn create_test_workflow() -> BldWorkflow {
    BldWorkflow::new(UFR_EXPANDED, UFR_PARITY, UFR_TWIST, UF_EXPANDED, UF_FLIP)
        .expect("Failed to create test workflow")
}

fn create_mixed_workflow() -> MixedNearbySearchWorkflow {
    MixedNearbySearchWorkflow::new(create_test_workflow())
}


// ---- BLD workflow ----

#[test]
fn test_bld_workflow_already_solved() {
    let state = State::solved();
    println!("\n=== BLD Workflow Already Solved Test ===");
    let workflow = create_test_workflow();
    let solution = workflow.solve(&state).expect("Failed to solve");
    println!("{}", BldWorkflow::format_solution(&solution));
    assert!(solution.corner_operations.is_empty());
    assert!(solution.edge_operations.is_empty());
    assert!(solution.all_operations.is_empty());
    assert!(solution.move_sequence.is_empty());
}

#[test]
fn test_bld_workflow_operation_order() {
    let state = State::new(
        [1, 0, 2, 3, 4, 5, 6, 7],
        [0, 0, 0, 0, 0, 0, 0, 0],
        [1, 0, 2, 3, 4, 5, 6, 7, 8, 9, 10, 11],
        [0, 0, 0, 0, 0, 0, 0, 0, 0, 0, 0, 0],
    );
    let workflow = create_test_workflow();
    let solution = workflow.solve(&state).expect("Failed to solve");
    println!("\n=== BLD Workflow Operation Order Test ===");
    println!("All operations:");
    for (i, op) in solution.all_operations.operations().iter().enumerate() {
        println!("  Step {}: {:?}", i + 1, op);
    }
    assert!(matches!(solution.all_operations.operations()[0], Operation::Edge(_)));
    let last_idx = solution.all_operations.len() - 1;
    assert!(matches!(solution.all_operations.operations()[last_idx], Operation::Corner(_)));
}

#[test]
fn bld_solution_lists_are_the_solvers_lists() {
    let state = State::new(
        [1, 0, 2, 3, 4, 5, 6, 7],
        [0, 0, 0, 0, 0, 0, 0, 0],
        [1, 0, 2, 3, 4, 5, 6, 7, 8, 9, 10, 11],
        [0, 0, 0, 0, 0, 0, 0, 0, 0, 0, 0, 0],
    );
    let workflow = create_test_workflow();
    let solution = workflow.solve(&state).expect("Failed to solve");
    assert_eq!(solution.corner_operations, CornerInspection::solve_corner_permutation_with_orientation(&state));
    assert_eq!(solution.edge_operations, EdgeInspection::solve_edge_permutation_with_orientation(&state));
}

#[test]
fn editor_up_then_down_restores_every_target() {
    let mut editor = StateInputEditor::new();
    for _ in 0..4 {
        editor.handle_key(EditorKey::Tab);
        for _ in 0..3 {
            let before = editor.result();
            editor.handle_key(EditorKey::Up);
            assert_ne!(editor.result(), before);
            editor.handle_key(EditorKey::Down);
            assert_eq!(editor.result(), before);
            editor.handle_key(EditorKey::Down);
            editor.handle_key(EditorKey::Up);
            assert_eq!(editor.result(), before);
            editor.handle_key(EditorKey::Right);
        }
    }
}

#[test]
fn bld_workflow_rejects_broken_json() {
    let r = BldWorkflow::new("{", UFR_PARITY, UFR_TWIST, UF_EXPANDED, UF_FLIP);
    assert!(r.is_err());
}

#[test]
fn bld_workflow_reports_missing_table_entry() {
    let state = State::new(
        [0, 1, 2, 3, 4, 5, 6, 7],
        [0, 0, 0, 0, 0, 0, 0, 0],
        [0, 1, 2, 3, 4, 5, 6, 7, 8, 9, 10, 11],
        [0, 0, 0, 0, 0, 0, 0, 0, 0, 1, 0, 1],
    );
    let workflow = create_test_workflow();
    let solution = workflow.solve(&state);
    assert!(solution.is_err());
}

#[test]
fn bld_solution_text_of_solved_cube() {
    let workflow = create_test_workflow();
    let solution = workflow.solve(&State::solved()).expect("Failed to solve");
    assert_eq!(
        BldWorkflow::format_solution(&solution),
        "=== BLD Solution ===\n\nCorner Operations:\n  (none)\n\nEdge Operations:\n  (none)\n\nAll Operations (Edge → Corner):\n  (none)\n\nMove Sequence:\n  \n"
    );
}

// ---- mixed neighbourhood workflow ----

#[test]
fn test_correct_solution_conversion() {
    let workflow = create_mixed_workflow();
    let state = State::new(
        [1, 0, 2, 3, 4, 5, 6, 7],
        [0, 0, 0, 0, 0, 0, 0, 0],
        [1, 0, 2, 3, 4, 5, 6, 7, 8, 9, 10, 11],
        [0, 0, 0, 0, 0, 0, 0, 0, 0, 0, 0, 0],
    );
    let solution = workflow.get_correct_solution(&state).unwrap();
    let mixed_ops = workflow.solution_to_mixed_operations(&solution);
    println!("Mixed operations count: {}", mixed_ops.len());
    assert_eq!(
        mixed_ops.len(),
        solution.edge_operations.len() + solution.corner_operations.len()
    );
}

#[test]
fn test_variants_exploration() {
    let workflow = create_mixed_workflow();
    let state = State::new(
        [1, 0, 2, 3, 4, 5, 6, 7],
        [0, 0, 0, 0, 0, 0, 0, 0],
        [1, 0, 2, 3, 4, 5, 6, 7, 8, 9, 10, 11],
        [0, 0, 0, 0, 0, 0, 0, 0, 0, 0, 0, 0],
    );
    let variants = workflow.explore_all_variants(&state).unwrap();
    println!("Found {} variants", variants.len());
    assert!(!variants.is_empty());
    for (i, (modified_seq, final_state)) in variants.iter().take(5).enumerate() {
        println!("Variant {}: {} -> {:?}", i + 1, modified_seq.get_description(), final_state);
    }
}

#[test]
fn mixed_workflow_solved_cube_has_no_variants() {
    let workflow = create_mixed_workflow();
    let variants = workflow.explore_all_variants(&State::solved()).unwrap();
    assert!(variants.is_empty());
    let reaching = workflow.find_variants_reaching_target(&State::solved(), &State::solved()).unwrap();
    assert!(reaching.is_empty());
}

// ---- sequence neighbourhood workflow ----

#[test]
fn test_workflow_basic() {
    let before_state = State::new(
        [0, 1, 6, 3, 4, 5, 7, 2],
        [0, 0, 1, 0, 0, 0, 0, 2],
        [0, 1, 2, 3, 4, 5, 6, 7, 8, 9, 10, 11],
        [0, 0, 0, 0, 0, 0, 0, 0, 0, 0, 0, 0],
    );
    let after_state = State::new(
        [0, 6, 2, 3, 4, 1, 7, 5],
        [0, 2, 0, 0, 0, 2, 1, 1],
        [0, 5, 9, 3, 4, 2, 6, 7, 8, 1, 10, 11],
        [0, 0, 0, 0, 0, 0, 0, 0, 0, 0, 0, 0],
    );
    let original_sequence = vec![
        NotationMove::R,
        NotationMove::U,
        NotationMove::RPrime,
        NotationMove::D,
        NotationMove::R,
        NotationMove::UPrime,
        NotationMove::RPrime,
        NotationMove::DPrime,
    ];
    let sequences = vec![original_sequence.clone()];
    let workflow = NearbySequenceSearchWorkflow::new(sequences);
    let results = workflow.find_alternatives(&before_state, &after_state);
    println!("Found {} alternatives", results.len());
    for modified_collection in &results {
        println!("{}", modified_collection.to_display_string());
    }
    assert!(!results.is_empty(), "No alternatives found");
    let target_found = results.iter().any(|modified_collection| {
        let collection = modified_collection.get_collection();
        if collection.len() != 1 {
            return false;
        }
        let seq = &collection[0];
        seq.len() == 8
            && seq[0] == NotationMove::R2
            && seq[1] == NotationMove::U
            && seq[2] == NotationMove::RPrime
            && seq[3] == NotationMove::D
            && seq[4] == NotationMove::R
            && seq[5] == NotationMove::UPrime
            && seq[6] == NotationMove::RPrime
            && seq[7] == NotationMove::DPrime
    });
    assert!(target_found, "Target sequence R2 U R' D R U' R' D' not found");
}

#[test]
fn test_workflow_with_details() {
    let before_state = State::new(
        [0, 1, 6, 3, 4, 5, 7, 2],
        [0, 0, 1, 0, 0, 0, 0, 2],
        [0, 1, 2, 3, 6, 5, 10, 7, 8, 9, 4, 11],
        [0, 0, 0, 0, 0, 0, 0, 0, 0, 0, 0, 0],
    );
    let after_state = State::new(
        [0, 6, 2, 3, 4, 1, 7, 5],
        [0, 2, 0, 0, 0, 2, 1, 1],
        [0, 5, 9, 3, 4, 2, 6, 7, 8, 1, 10, 11],
        [0, 0, 0, 0, 0, 0, 0, 0, 0, 0, 0, 0],
    );
    let original_sequence1 = vec![NotationMove::MPrime, NotationMove::U2, NotationMove::M, NotationMove::U2];
    let original_sequence2 = vec![
        NotationMove::R,
        NotationMove::U,
        NotationMove::RPrime,
        NotationMove::D,
        NotationMove::R,
        NotationMove::UPrime,
        NotationMove::RPrime,
        NotationMove::DPrime,
    ];
    let sequences = vec![original_sequence1, original_sequence2];
    let workflow = NearbySequenceSearchWorkflow::new(sequences);
    let results = workflow.find_alternatives(&before_state, &after_state);
    println!("Found {} alternatives with details", results.len());
    for result in &results {
        println!("{}", result.to_display_string());
    }
    assert!(!results.is_empty());
}

#[test]
fn test_workflow_with_details_noop() {
    let before_state = State::new(
        [0, 1, 6, 3, 4, 5, 7, 2],
        [0, 0, 1, 0, 0, 0, 0, 2],
        [0, 1, 2, 3, 6, 5, 10, 7, 8, 9, 4, 11],
        [0, 0, 0, 0, 0, 0, 0, 0, 0, 0, 0, 0],
    );
    let after_state = State::new(
        [0, 5, 2, 3, 4, 7, 1, 6],
        [0, 1, 0, 0, 0, 2, 1, 2],
        [0, 9, 5, 3, 4, 1, 6, 7, 8, 2, 10, 11],
        [0, 0, 0, 0, 0, 0, 0, 0, 0, 0, 0, 0],
    );
    let original_sequence1 = vec![NotationMove::MPrime, NotationMove::U2, NotationMove::M, NotationMove::U2];
    let original_sequence2 = vec![
        NotationMove::R,
        NotationMove::U,
        NotationMove::RPrime,
        NotationMove::D,
        NotationMove::R,
        NotationMove::UPrime,
        NotationMove::RPrime,
        NotationMove::DPrime,
    ];
    let sequences = vec![original_sequence1, original_sequence2];
    let workflow = NearbySequenceSearchWorkflow::new(sequences);
    let results = workflow.find_alternatives(&before_state, &after_state);
    println!("Found {} alternatives with details", results.len());
    for result in &results {
        println!("{}", result.to_display_string());
    }
    assert!(!results.is_empty());
}

#[test]
fn test_workflow_multiple_sequences() {
    let before_state = State::solved();
    let sequences = vec![vec![NotationMove::R], vec![NotationMove::U]];
    let workflow = NearbySequenceSearchWorkflow::new(sequences);
    let mut after_state = State::solved();
    after_state = apply_notation_move(&after_state, &NotationMove::R2);
    after_state = apply_notation_move(&after_state, &NotationMove::U);
    let results = workflow.find_alternatives(&before_state, &after_state);
    println!("Found {} alternatives for multiple sequences", results.len());
    for modified_collection in &results {
        println!("{}", modified_collection.to_display_string());
    }
    let target_found = results.iter().any(|modified_collection| {
        let collection = modified_collection.get_collection();
        collection.len() == 2
            && collection[0].len() == 1
            && collection[0][0] == NotationMove::R2
            && collection[1].len() == 1
            && collection[1][0] == NotationMove::U
    });
    assert!(target_found, "Expected R2 U combination not found");
}

#[test]
fn sequence_workflow_details_reach_target() {
    let sequences = vec![vec![NotationMove::R], vec![NotationMove::U]];
    let workflow = NearbySequenceSearchWorkflow::new(sequences);
    let mut after_state = State::solved();
    after_state = apply_notation_move(&after_state, &NotationMove::U);
    let results = workflow.find_alternatives_with_details(&State::solved(), &after_state);
    assert_eq!(results.len(), 1);
    assert_eq!(results[0].final_state, after_state);
    assert_eq!(results[0].modified_collection.get_collection(), vec![vec![], vec![NotationMove::U]]);
}

// ---- state input editor ----

#[test]
fn editor_types_and_edits_scramble() {
    let mut editor = StateInputEditor::new();
    assert_eq!(editor.handle_key(EditorKey::Char('R')), EditorAction::Continue);
    editor.handle_key(EditorKey::Char('U'));
    editor.handle_key(EditorKey::Left);
    editor.handle_key(EditorKey::Char(' '));
    assert_eq!(editor.scramble(), "R U");
    assert_eq!(editor.cursor_position(), 2);
    editor.handle_key(EditorKey::Backspace);
    assert_eq!(editor.scramble(), "RU");
    editor.handle_key(EditorKey::Delete);
    assert_eq!(editor.scramble(), "R");
    assert_eq!(editor.handle_key(EditorKey::Esc), EditorAction::Cancel);
}

#[test]
fn editor_changes_targets_and_confirms() {
    let mut editor = StateInputEditor::new();
    editor.handle_key(EditorKey::Tab);
    assert_eq!(editor.current_field(), StateField::Cp);
    editor.handle_key(EditorKey::Down);
    assert_eq!(editor.target_cp()[0], 7);
    editor.handle_key(EditorKey::Right);
    editor.handle_key(EditorKey::Up);
    assert_eq!(editor.target_cp()[1], 2);
    editor.handle_key(EditorKey::Enter);
    assert_eq!(editor.current_field(), StateField::Co);
    editor.handle_key(EditorKey::Up);
    editor.handle_key(EditorKey::Up);
    editor.handle_key(EditorKey::Up);
    assert_eq!(editor.target_co()[0], 0);
    editor.handle_key(EditorKey::Enter);
    editor.handle_key(EditorKey::Enter);
    assert_eq!(editor.current_field(), StateField::Eo);
    assert!(!editor.is_confirmed());
    assert_eq!(editor.handle_key(EditorKey::Enter), EditorAction::Confirm);
    assert!(editor.is_confirmed());
    let (scramble, cp, co, ep, eo) = editor.result();
    assert_eq!(scramble, "");
    assert_eq!(cp, [7, 2, 2, 3, 4, 5, 6, 7]);
    assert_eq!(co, [0; 8]);
    assert_eq!(ep, [0, 1, 2, 3, 4, 5, 6, 7, 8, 9, 10, 11]);
    assert_eq!(eo, [0; 12]);
    assert_eq!(editor.target_ep()[11], 11);
    assert_eq!(editor.target_eo()[0], 0);
}

// ---- display ----

#[test]
fn solved_state_displays_centre_colours() {
    let display = StateToDisplay::convert(&State::solved());
    let up = display.get_face(&Face::Up);
    for r in 0..3 {
        for c in 0..3 {
            assert_eq!(up.get_cell(r, c), CubeColor::White);
        }
    }
    let down = display.get_face(&Face::Down);
    for r in 0..3 {
        for c in 0..3 {
            assert_eq!(down.get_cell(r, c), CubeColor::Yellow);
        }
    }
    let front = display.get_face(&Face::Front);
    assert_eq!(front.get_cell(1, 1), CubeColor::Green);
    assert_eq!(front.get_cell(0, 0), CubeColor::Orange);
    assert_eq!(front.get_cell(0, 1), CubeColor::Green);
    assert_eq!(front.get_cell(1, 2), CubeColor::Red);
}

#[test]
fn turned_state_changes_display() {
    let state = apply_notation_move(&State::solved(), &NotationMove::R);
    let display = StateToDisplay::convert(&state);
    let solved = CubeDisplay::new_solved();
    assert_ne!(display.to_debug_string(), solved.to_debug_string());
    let lines = cube_net_lines(&display);
    assert!(!lines.is_empty());
    assert_eq!(CubeColor::White.to_char(), 'W');
}

#[test]
fn bld_solution_of_one_corner_swap() {
    let state = State::new(
        [1, 0, 2, 3, 4, 5, 6, 7],
        [0, 0, 0, 0, 0, 0, 0, 0],
        [0, 1, 2, 3, 4, 5, 6, 7, 8, 9, 10, 11],
        [0, 0, 0, 0, 0, 0, 0, 0, 0, 0, 0, 0],
    );
    let workflow = create_test_workflow();
    let solution = workflow.solve(&state).expect("Failed to solve");
    assert_eq!(solution.corner_operations, vec![CornerOperation::Swap(CornerSwapOperation::new(0, 1, 0))]);
    assert!(solution.edge_operations.is_empty());
    assert_eq!(solution.all_operations.len(), 1);
    assert_eq!(solution.move_sequence.moves, parse_sequence("R U R' U R U2 R'").unwrap());
}
