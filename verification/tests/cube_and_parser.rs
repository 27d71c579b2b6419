use rubiks_cube_simulator::cube::operations::{apply_notation_move, apply_notation_sequence};
use rubiks_cube_simulator::parser::move_parser::reversed_sequence;
use rubiks_cube_simulator::parser::csv_parser::{parse_3style_csv_text, parse_csv_line};
use rubiks_cube_simulator::{parse_sequence, sequence_to_string, NotationMove, PartialStatePattern, RubiksCube, State};

#[test]
fn test_solved_state_matches_all_patterns() {
    let solved = State::solved();
    assert!(solved.matches_partial_pattern(&PartialStatePattern::top_face_solved()));
    assert!(solved.matches_partial_pattern(&PartialStatePattern::bottom_face_solved()));
    assert!(solved.matches_partial_pattern(&PartialStatePattern::f2l_solved()));
}

#[test]
fn test_custom_partial_pattern() {
    let pattern = PartialStatePattern::new([1, 1, 1, 1, 0, 0, 0, 0, 0, 0, 0, 0], [1, 1, 1, 1, 0, 0, 0, 0]);
    let solved = State::solved();
    assert!(solved.matches_partial_pattern(&pattern));
    let partially_scrambled = State::new(
        [0, 1, 2, 3, 7, 6, 5, 4],
        [0, 0, 0, 0, 2, 1, 2, 1],
        [0, 1, 2, 3, 7, 6, 5, 4, 8, 9, 10, 11],
        [0, 0, 0, 0, 1, 1, 1, 1, 0, 0, 0, 0],
    );
    assert!(partially_scrambled.matches_partial_pattern(&pattern));
    assert!(partially_scrambled.matches_partial_pattern(&PartialStatePattern::top_face_solved()));
    assert!(!partially_scrambled.matches_partial_pattern(&PartialStatePattern::bottom_face_solved()));
}

#[test]
fn test_pattern_with_example_from_docs() {
    let pattern = PartialStatePattern::new([0, 0, 0, 0, 1, 1, 1, 1, 0, 0, 0, 0], [1, 1, 1, 1, 0, 0, 0, 0]);
    let test_state = State::new(
        [0, 1, 2, 3, 7, 6, 5, 4],
        [0, 0, 0, 0, 2, 1, 0, 1],
        [10, 11, 8, 9, 4, 5, 6, 7, 0, 1, 2, 3],
        [1, 1, 1, 1, 0, 0, 0, 0, 1, 1, 1, 1],
    );
    assert!(test_state.matches_partial_pattern(&pattern));
}

#[test]
fn test_non_matching_patterns() {
    let scrambled_top = State::new(
        [1, 0, 3, 2, 4, 5, 6, 7],
        [1, 2, 0, 1, 0, 0, 0, 0],
        [0, 1, 2, 3, 4, 5, 6, 7, 8, 9, 10, 11],
        [0, 0, 0, 0, 0, 0, 0, 0, 0, 0, 0, 0],
    );
    assert!(!scrambled_top.matches_partial_pattern(&PartialStatePattern::top_face_solved()));
    assert!(scrambled_top.matches_partial_pattern(&PartialStatePattern::bottom_face_solved()));
}

#[test]
fn test_move_from_str() {
    assert_eq!(NotationMove::from_str("U").unwrap(), NotationMove::U);
    assert_eq!(NotationMove::from_str("U2").unwrap(), NotationMove::U2);
    assert_eq!(NotationMove::from_str("U'").unwrap(), NotationMove::UPrime);
    assert!(NotationMove::from_str("X").is_err());
}

#[test]
fn test_move_reversed() {
    assert_eq!(NotationMove::U.reversed(), NotationMove::UPrime);
    assert_eq!(NotationMove::UPrime.reversed(), NotationMove::U);
    assert_eq!(NotationMove::U2.reversed(), NotationMove::U2);
}

#[test]
fn test_move_doubled() {
    assert_eq!(NotationMove::U.doubled(), NotationMove::U2);
    assert_eq!(NotationMove::UPrime.doubled(), NotationMove::U2);
    assert_eq!(NotationMove::U2.doubled(), NotationMove::U2);
}

#[test]
fn test_parse_sequence() {
    let seq = parse_sequence("U R D R'").unwrap();
    assert_eq!(seq, vec![NotationMove::U, NotationMove::R, NotationMove::D, NotationMove::RPrime]);
}

#[test]
fn test_reversed_sequence() {
    let seq = vec![NotationMove::U, NotationMove::R, NotationMove::D, NotationMove::RPrime];
    let reversed = reversed_sequence(&seq);
    assert_eq!(reversed, vec![NotationMove::R, NotationMove::DPrime, NotationMove::RPrime, NotationMove::UPrime]);
}

#[test]
fn test_sequence_to_string() {
    let seq = vec![NotationMove::U, NotationMove::R, NotationMove::D, NotationMove::RPrime];
    assert_eq!(sequence_to_string(&seq), "U R D R'");
}

#[test]
fn test_parse_csv_line() {
    let line = r#",UBR,"D: R D R', U",FDR"#;
    let cells = parse_csv_line(line);
    assert_eq!(cells, vec!["", "UBR", "D: R D R', U", "FDR"]);
}

#[test]
fn test_parse_csv_line_with_escaped_quotes() {
    let line = r#"A,"B ""quoted"" text",C"#;
    let cells = parse_csv_line(line);
    assert_eq!(cells, vec!["A", r#"B "quoted" text"#, "C"]);
}

#[test]
fn test_parse_3style_csv_structure() {
    let test_csv = r#",UBR,FDR
UBR,,"D: R D R', U"
FDR,"D: U, R D R'","#;
    let result = parse_3style_csv_text(test_csv).unwrap();
    let ubr = result.iter().find(|(k, _)| k == "UBR").expect("UBR row");
    assert_eq!(ubr.1, vec![("FDR".to_string(), "D: R D R', U".to_string())]);
    let fdr = result.iter().find(|(k, _)| k == "FDR").expect("FDR row");
    assert_eq!(fdr.1, vec![("UBR".to_string(), "D: U, R D R'".to_string())]);
}

#[test]
fn test_solved_state() {
    let state = State::solved();
    assert!(state.is_solved());
}

#[test]
fn csv_empty_text_is_an_error() {
    assert_eq!(parse_3style_csv_text(""), Err("CSVファイルが空です".to_string()));
}

#[test]
fn csv_cells_are_trimmed_and_rows_without_entries_dropped() {
    let text = " , A ,B\r\nX, 1 ,\nY,,\n,2,3\n";
    let result = parse_3style_csv_text(text).unwrap();
    assert_eq!(result, vec![("X".to_string(), vec![("A".to_string(), "1".to_string())])]);
}

#[test]
fn csv_later_cell_of_same_heading_wins() {
    let result = parse_3style_csv_text("_,A,A\nR,1,2").unwrap();
    assert_eq!(result, vec![("R".to_string(), vec![("A".to_string(), "2".to_string())])]);
}

#[test]
fn parse_sequence_reports_unknown_word() {
    assert_eq!(parse_sequence("R Q U"), Err("Unknown move: Q".to_string()));
    assert_eq!(parse_sequence("   "), Ok(vec![]));
    assert_eq!(parse_sequence("R Rw2 M'"), Err("Unknown move: Rw2".to_string()));
    assert_eq!(NotationMove::from_str("Uw"), Err("Unknown move: Uw".to_string()));
    assert_eq!(NotationMove::from_str("M"), Err("Unknown move: M".to_string()));
    assert_eq!(NotationMove::from_str(" U"), Err("Unknown move:  U".to_string()));
    assert_eq!(NotationMove::from_str("B'"), Ok(NotationMove::BPrime));
}

#[test]
fn move_followed_by_its_reverse_restores_the_state() {
    let s = State::solved();
    for m in [
        NotationMove::U,
        NotationMove::D2,
        NotationMove::RPrime,
        NotationMove::LWide,
        NotationMove::F,
        NotationMove::BWidePrime,
        NotationMove::M,
        NotationMove::S2,
        NotationMove::EPrime,
    ] {
        let t = apply_notation_move(&s, &m);
        assert_ne!(t, s);
        let back = apply_notation_move(&t, &m.reversed());
        assert_eq!(back, s);
    }
}

#[test]
fn rubiks_cube_applies_named_moves() {
    let cube = RubiksCube::new();
    let names = cube.get_move_names();
    assert_eq!(names.len(), 18);
    let s = State::solved();
    let r = cube.apply_move(&s, "R").unwrap();
    assert_eq!(r, apply_notation_move(&s, &NotationMove::R));
    assert!(cube.apply_move(&s, "X").is_none());
    let scrambled = cube.scramble_to_state("R U R' U'");
    let mut expected = s;
    for m in [NotationMove::R, NotationMove::U, NotationMove::RPrime, NotationMove::UPrime] {
        expected = apply_notation_move(&expected, &m);
    }
    assert_eq!(scrambled, expected);
}

#[test]
fn state_text_lists_all_arrays() {
    let state = State::solved();
    assert_eq!(
        state.to_display_string(),
        "Corner Permutation: [0, 1, 2, 3, 4, 5, 6, 7]\nCorner Orientation: [0, 0, 0, 0, 0, 0, 0, 0]\nEdge Permutation:   [0, 1, 2, 3, 4, 5, 6, 7, 8, 9, 10, 11]\nEdge Orientation:   [0, 0, 0, 0, 0, 0, 0, 0, 0, 0, 0, 0]"
    );
}

#[test]
fn sequence_followed_by_its_reverse_restores_the_state() {
    let cube = RubiksCube::new();
    let start = cube.scramble_to_state("R U F' L2 D B");
    let seq = vec![
        NotationMove::RWide,
        NotationMove::UPrime,
        NotationMove::M2,
        NotationMove::FWide2,
        NotationMove::E,
        NotationMove::SPrime,
        NotationMove::BWidePrime,
        NotationMove::DWide,
    ];
    let there = apply_notation_sequence(&start, &seq);
    assert_ne!(there, start);
    let back = apply_notation_sequence(&there, &reversed_sequence(&seq));
    assert_eq!(back, start);
}

#[test]
fn named_face_moves_agree_with_notation_moves() {
    let cube = RubiksCube::new();
    let start = cube.scramble_to_state("F2 U' R D");
    for text in ["U", "U'", "U2", "D", "R'", "L2", "F", "B'"] {
        let by_name = cube.apply_move(&start, text).unwrap();
        let by_notation = apply_notation_move(&start, &NotationMove::from_str(text).unwrap());
        assert_eq!(by_name, by_notation);
    }
    assert!(cube.apply_move(&start, "Rw").is_none());
}

#[test]
fn sequence_text_of_face_turns_reads_back() {
    let seq = vec![NotationMove::U, NotationMove::R2, NotationMove::FPrime, NotationMove::B];
    let text = sequence_to_string(&seq);
    assert_eq!(text, "U R2 F' B");
    assert_eq!(parse_sequence(&text), Ok(seq));
}

#[test]
fn scramble_then_reversed_scramble_is_solved() {
    let cube = RubiksCube::new();
    let seq = parse_sequence("R U2 F' L D' B2 U").unwrap();
    let text = format!("{} {}", sequence_to_string(&seq), sequence_to_string(&reversed_sequence(&seq)));
    assert!(cube.scramble_to_state(&text).is_solved());
    assert!(!cube.scramble_to_state(&sequence_to_string(&seq)).is_solved());
}

#[test]
fn named_quarter_turn_powers() {
    let cube = RubiksCube::new();
    let s = cube.scramble_to_state("F R' D2 B");
    for x in ["U", "D", "L", "R", "F", "B"] {
        let q = |t: &State| cube.apply_move(t, x).unwrap();
        assert_ne!(q(&s), s);
        assert_eq!(q(&q(&q(&q(&s)))), s);
        assert_eq!(cube.apply_move(&s, &format!("{}2", x)), Some(q(&q(&s))));
        assert_eq!(cube.apply_move(&s, &format!("{}'", x)), Some(q(&q(&q(&s)))));
    }
}

#[test]
fn joined_text_of_any_sequence_and_its_reverse_is_solved() {
    let cube = RubiksCube::new();
    let seq = vec![
        NotationMove::R,
        NotationMove::UWide,
        NotationMove::M,
        NotationMove::Noop,
        NotationMove::F2,
        NotationMove::SPrime,
        NotationMove::D,
        NotationMove::BWide2,
    ];
    let text = format!("{} {}", sequence_to_string(&seq), sequence_to_string(&reversed_sequence(&seq)));
    assert!(cube.scramble_to_state(&text).is_solved());
    assert!(!cube.scramble_to_state(&sequence_to_string(&seq)).is_solved());
    assert_eq!(reversed_sequence(&reversed_sequence(&seq)), seq);
}

#[test]
fn csv_repeated_row_key_keeps_one_row() {
    let result = parse_3style_csv_text("_,A,B\nR,1,\nS,3,\nR,,2").unwrap();
    assert_eq!(
        result,
        vec![
            ("R".to_string(), vec![("B".to_string(), "2".to_string())]),
            ("S".to_string(), vec![("A".to_string(), "3".to_string())]),
        ]
    );
}
