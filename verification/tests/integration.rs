use rubiks_cube_simulator::explorer::NearbyEdgeOperationSearch;
use rubiks_cube_simulator::inspection::{
    CornerInspection, EdgeFlipOperation, EdgeInspection, EdgeOperation, EdgeSwapOperation,
};
use rubiks_cube_simulator::{RubiksCube, State};

#[test]
fn test_corner_and_edge_solver_together() {
    let scramble = "R U R' U' R' F R2 U' R' U' R U R' F'";
    let cube = RubiksCube::new();
    let scrambled_state = cube.scramble_to_state(scramble);
    let corner_ops = CornerInspection::solve_corner_permutation_with_orientation(&scrambled_state);
    let edge_ops = EdgeInspection::solve_edge_permutation_with_orientation(&scrambled_state);
    let mut state_after_corners = scrambled_state.clone();
    for op in &corner_ops {
        state_after_corners = op.apply(&state_after_corners);
    }
    let mut final_state = state_after_corners.clone();
    for op in &edge_ops {
        final_state = op.apply(&final_state);
    }
    assert!(final_state.is_solved(), "Cube should be completely solved");
}

#[test]
fn test_complex_scramble() {
    let scramble = "F R U' R' U' R U R' F' R U R' U' R' F R F'";
    let cube = RubiksCube::new();
    let scrambled_state = cube.scramble_to_state(scramble);
    let corner_ops = CornerInspection::solve_corner_permutation_with_orientation(&scrambled_state);
    let edge_ops = EdgeInspection::solve_edge_permutation_with_orientation(&scrambled_state);
    let mut state = scrambled_state.clone();
    for op in &corner_ops {
        state = op.apply(&state);
    }
    for op in &edge_ops {
        state = op.apply(&state);
    }
    assert!(state.is_solved(), "Complex scramble should be solvable");
}

#[test]
fn test_corner_only_scramble() {
    let state = State::new(
        [1, 0, 2, 3, 4, 5, 6, 7],
        [2, 1, 0, 0, 0, 0, 0, 0],
        [0, 1, 2, 3, 4, 5, 6, 7, 8, 9, 10, 11],
        [0, 0, 0, 0, 0, 0, 0, 0, 0, 0, 0, 0],
    );
    let corner_ops = CornerInspection::solve_corner_permutation_with_orientation(&state);
    let edge_ops = EdgeInspection::solve_edge_permutation_with_orientation(&state);
    assert_eq!(edge_ops.len(), 0);
    let mut solved_state = state.clone();
    for op in &corner_ops {
        solved_state = op.apply(&solved_state);
    }
    assert!(solved_state.is_solved());
}

#[test]
fn test_edge_only_scramble() {
    let state = State::new(
        [0, 1, 2, 3, 4, 5, 6, 7],
        [0, 0, 0, 0, 0, 0, 0, 0],
        [1, 0, 2, 3, 4, 5, 6, 7, 9, 8, 10, 11],
        [1, 1, 0, 0, 0, 0, 0, 0, 1, 1, 0, 0],
    );
    let corner_ops = CornerInspection::solve_corner_permutation_with_orientation(&state);
    let edge_ops = EdgeInspection::solve_edge_permutation_with_orientation(&state);
    assert_eq!(corner_ops.len(), 0);
    let mut solved_state = state.clone();
    for op in &edge_ops {
        solved_state = op.apply(&solved_state);
    }
    assert!(solved_state.is_solved());
}

#[test]
fn test_edge_solver_integration() {
    let state = State::new(
        [0, 1, 2, 3, 4, 5, 6, 7],
        [0, 0, 0, 0, 0, 0, 0, 0],
        [1, 0, 6, 2, 5, 4, 3, 7, 9, 10, 11, 8],
        [1, 1, 0, 1, 1, 1, 1, 0, 1, 0, 1, 0],
    );
    let operations = EdgeInspection::solve_edge_permutation_with_orientation(&state);
    let mut current_state = state.clone();
    for op in &operations {
        current_state = op.apply(&current_state);
    }
    assert_eq!(current_state.ep, [0, 1, 2, 3, 4, 5, 6, 7, 8, 9, 10, 11]);
    assert_eq!(current_state.eo, [0, 0, 0, 0, 0, 0, 0, 0, 0, 0, 0, 0]);
}

#[test]
fn test_edge_swap_orientation_logic() {
    let initial_state = State::new(
        [0, 1, 2, 3, 4, 5, 6, 7],
        [0, 0, 0, 0, 0, 0, 0, 0],
        [0, 1, 2, 3, 4, 5, 6, 7, 9, 8, 10, 11],
        [0, 0, 0, 0, 0, 0, 0, 0, 1, 0, 0, 0],
    );
    let swap_op = EdgeSwapOperation::new(8, 9, 1);
    let result_state = swap_op.apply(&initial_state);
    assert_eq!(result_state.ep[8], 8);
    assert_eq!(result_state.ep[9], 9);
    assert_eq!(result_state.eo[8], 1);
    assert_eq!(result_state.eo[9], 0);
}

#[test]
fn test_edge_swap_orientation_edge_cases() {
    let state1 = State::new(
        [0, 1, 2, 3, 4, 5, 6, 7],
        [0, 0, 0, 0, 0, 0, 0, 0],
        [0, 1, 2, 3, 4, 5, 6, 7, 0, 9, 10, 11],
        [0, 0, 0, 0, 0, 0, 0, 0, 1, 0, 0, 0],
    );
    let swap_op1 = EdgeSwapOperation::new(8, 0, 0);
    let result1 = swap_op1.apply(&state1);
    assert_eq!(result1.ep[8], 0);
    assert_eq!(result1.ep[0], 0);
    assert_eq!(result1.eo[8], 0);
    assert_eq!(result1.eo[0], 1);
    let state2 = State::new(
        [0, 1, 2, 3, 4, 5, 6, 7],
        [0, 0, 0, 0, 0, 0, 0, 0],
        [0, 1, 2, 3, 4, 5, 6, 7, 9, 8, 10, 11],
        [0, 0, 0, 0, 0, 0, 0, 0, 1, 1, 0, 0],
    );
    let swap_op2 = EdgeSwapOperation::new(8, 9, 1);
    let result2 = swap_op2.apply(&state2);
    assert_eq!(result2.ep[8], 8);
    assert_eq!(result2.ep[9], 9);
    assert_eq!(result2.eo[8], 0);
    assert_eq!(result2.eo[9], 0);
}

#[test]
fn test_edge_flip_operation() {
    let state = State::new(
        [0, 1, 2, 3, 4, 5, 6, 7],
        [0, 0, 0, 0, 0, 0, 0, 0],
        [0, 1, 2, 3, 4, 5, 6, 7, 8, 9, 10, 11],
        [0, 1, 0, 1, 0, 0, 0, 0, 0, 0, 0, 0],
    );
    let flip_op1 = EdgeFlipOperation::new(1);
    let state1 = flip_op1.apply(&state);
    assert_eq!(state1.eo[1], 0);
    let flip_op2 = EdgeFlipOperation::new(0);
    let state2 = flip_op2.apply(&state);
    assert_eq!(state2.eo[0], 1);
}

#[test]
fn edge_nearby_search_gives_23_variants_per_swap_and_11_per_flip() {
    let state = State::new(
        [0, 1, 2, 3, 4, 5, 6, 7],
        [0, 0, 0, 0, 0, 0, 0, 0],
        [1, 0, 2, 3, 4, 5, 6, 7, 9, 8, 10, 11],
        [0, 0, 0, 0, 0, 0, 0, 0, 1, 0, 0, 0],
    );
    let operations = EdgeInspection::solve_edge_permutation_with_orientation(&state);
    let searcher = NearbyEdgeOperationSearch::new(operations.clone());
    let variants = searcher.explore_variants(&state);
    let swaps = operations.iter().filter(|op| matches!(op, EdgeOperation::Swap(_))).count();
    let flips = operations.len() - swaps;
    assert_eq!(variants.len(), swaps * 23 + flips * 11);
}
