use tetris_engine::board::Board;
use tetris_engine::features::{bad_patterns, good_patterns, very_bad_patterns, PatternLibraries};
use tetris_engine::pattern::{is_valid_template, SurfacePattern};

fn board_of(rows: &[&str]) -> Board {
    let mut s = String::new();
    for _ in rows.len()..20 {
        s.push_str("0000000000");
    }
    for r in rows {
        s.push_str(r);
    }
    Board::from_compact(&s)
}

#[test]
fn flat_stretches_on_the_empty_board() {
    let board = Board::new();
    assert_eq!(board.count_surface_pattern(&SurfacePattern::new(&["TT"])), 9);
    assert_eq!(board.count_surface_pattern(&SurfacePattern::new(&["TTT"])), 8);
    assert_eq!(board.count_surface_pattern(&SurfacePattern::new(&["T"])), 10);
}

#[test]
fn flat_stretches_on_a_stepped_skyline() {
    let board = board_of(&["1100000000", "1111100000"]);
    // tops: 18 18 19 19 19 20 20 20 20 20
    assert_eq!(board.count_surface_pattern(&SurfacePattern::new(&["TT"])), 7);
    assert_eq!(board.count_surface_pattern(&SurfacePattern::new(&["TTT"])), 4);
    let step_down = SurfacePattern::new(&["T ", " T"]);
    assert_eq!(board.count_surface_pattern(&step_down), 2);
    let step_up = SurfacePattern::new(&[" T", "T "]);
    assert_eq!(board.count_surface_pattern(&step_up), 0);
}

#[test]
fn a_deep_well_is_found_in_the_middle_and_at_the_wall() {
    let well = SurfacePattern::new(&["1 1", "1 1", "1 1", " T "]);
    assert_eq!(Board::new().count_surface_pattern(&well), 0);
    let middle = board_of(&["1110111111", "1110111111", "1110111111"]);
    assert_eq!(middle.count_surface_pattern(&well), 1);
    let left = board_of(&["0111111111", "0111111111", "0111111111"]);
    assert_eq!(left.count_surface_pattern(&well), 1);
    let right = board_of(&["1111111110", "1111111110", "1111111110", "1111111110"]);
    assert_eq!(right.count_surface_pattern(&well), 1);
    let shallow = board_of(&["1110111111", "1110111111"]);
    assert_eq!(shallow.count_surface_pattern(&well), 0);
    let two = board_of(&["1011111101", "1011111101", "1011111101"]);
    assert_eq!(two.count_surface_pattern(&well), 2);
}

#[test]
fn a_high_step_is_found_against_the_wall() {
    let step_up = SurfacePattern::new(&[" 1", " 1", " 1", "T "]);
    let step_down = SurfacePattern::new(&["1 ", "1 ", "1 ", " T"]);
    let board = Board::new();
    assert_eq!(board.count_surface_pattern(&step_up), 1);
    assert_eq!(board.count_surface_pattern(&step_down), 1);
    let tower = board_of(&["0000100000", "0000100000", "0000100000"]);
    assert_eq!(tower.count_surface_pattern(&step_up), 2);
    assert_eq!(tower.count_surface_pattern(&step_down), 2);
}

#[test]
fn a_pot_hole() {
    let pot_hole = SurfacePattern::new(&["T T", " T "]);
    assert_eq!(Board::new().count_surface_pattern(&pot_hole), 0);
    assert_eq!(board_of(&["1101111111"]).count_surface_pattern(&pot_hole), 1);
    assert_eq!(board_of(&["1101101111"]).count_surface_pattern(&pot_hole), 2);
    assert_eq!(board_of(&["0111111111"]).count_surface_pattern(&pot_hole), 0);
}

#[test]
fn a_cell_required_to_be_empty() {
    let pattern = SurfacePattern::new(&["T0"]);
    assert_eq!(Board::new().count_surface_pattern(&pattern), 0);
    assert_eq!(board_of(&["1000000000"]).count_surface_pattern(&pattern), 1);
    assert_eq!(board_of(&["1000000010"]).count_surface_pattern(&pattern), 2);
    assert_eq!(board_of(&["0000000001"]).count_surface_pattern(&pattern), 0);
}

#[test]
fn symbols_without_meaning_place_no_requirement() {
    let plain = SurfacePattern::new(&["T T", " T "]);
    let noisy = SurfacePattern::new(&["TxT", "?T."]);
    for board in [Board::new(), board_of(&["1101101111"]), board_of(&["1101111111"])] {
        assert_eq!(board.count_surface_pattern(&plain), board.count_surface_pattern(&noisy));
    }
}

#[test]
fn a_template_wider_than_the_board_matches_nowhere() {
    let wide = SurfacePattern::new(&["TTTTTTTTTTTT"]);
    assert_eq!(Board::new().count_surface_pattern(&wide), 0);
    let fitting = SurfacePattern::new(&["TTTTTTTTTT"]);
    assert_eq!(Board::new().count_surface_pattern(&fitting), 1);
}

#[test]
fn the_libraries_hold_four_nine_and_three_patterns() {
    assert_eq!(good_patterns().len(), 4);
    assert_eq!(bad_patterns().len(), 9);
    assert_eq!(very_bad_patterns().len(), 3);
}

#[test]
fn library_counts_on_the_empty_board() {
    let board = Board::new();
    assert_eq!(board.count_patterns(&good_patterns()), 17);
    assert_eq!(board.count_patterns(&bad_patterns()), 2);
    assert_eq!(board.count_patterns(&very_bad_patterns()), 0);
    assert_eq!(board.count_patterns(&Vec::new()), 0);
}

#[test]
fn library_counts_with_wells() {
    let deep = board_of(&["1110111111", "1110111111", "1110111111"]);
    assert_eq!(deep.count_patterns(&very_bad_patterns()), 1);
    // two wells of depth two on the outside, with a bump of height one between them
    let double = board_of(&["1000111111", "1010111111"]);
    assert_eq!(double.count_patterns(&very_bad_patterns()), 1);
    // a step of two on either side, a hook on either side, and a high step at each wall
    assert_eq!(double.count_patterns(&bad_patterns()), 2 + 2 + 2);
    // the same wells with the bump as high as the outside match neither double well
    let split = board_of(&["1010111111", "1010111111"]);
    assert_eq!(split.count_patterns(&very_bad_patterns()), 0);
}

#[test]
fn features_of_the_empty_board() {
    let libraries = PatternLibraries::new();
    let features = Board::new().integer_features(&libraries);
    let mut expected = vec![0usize; 37];
    expected[0] = 1;
    expected[3] = 1;
    expected[34] = 17;
    expected[35] = 2;
    assert_eq!(features, expected);
}

#[test]
fn features_of_a_board_ready_for_a_tetris() {
    let libraries = PatternLibraries::new();
    let board = board_of(&["0111111111", "0111111111", "0111111111", "0111111111"]);
    let features = board.integer_features(&libraries);
    let mut expected = vec![0usize; 37];
    expected[0] = 1;
    expected[3 + 4] = 1;
    expected[14] = 1;
    expected[24] = 4;
    expected[34] = 8 + 7;
    expected[35] = 2;
    expected[36] = 0;
    assert_eq!(features, expected);
    assert_eq!(board.heights_beside_well(), vec![4; 9]);
}

#[test]
fn features_count_overhangs_and_holes() {
    let libraries = PatternLibraries::new();
    let board = board_of(&["0000011000", "0000100000"]);
    let features = board.integer_features(&libraries);
    assert_eq!(features.len(), 37);
    assert_eq!(features[0], 1);
    assert_eq!(features[1], 2);
    assert_eq!(features[2], 1);
    // no single lowest column: depth zero, no well
    assert_eq!(&features[3..14], &[1, 0, 0, 0, 0, 0, 0, 0, 0, 0, 0]);
    assert_eq!(&features[14..34], &[0; 20]);
    assert_eq!(board.heights_beside_well(), vec![0, 0, 0, 0, 1, 2, 2, 0, 0, 0]);
}

#[test]
fn features_with_a_well_in_the_last_column() {
    let libraries = PatternLibraries::new();
    let board = board_of(&["1111111110", "1111111010"]);
    assert_eq!(board.tetris_readiness(), Some((0, 9)));
    let features = board.integer_features(&libraries);
    assert_eq!(&features[3..14], &[1, 0, 0, 0, 0, 0, 0, 0, 0, 0, 0]);
    assert_eq!(&features[14..24], &[0, 0, 0, 0, 0, 0, 0, 0, 0, 1]);
    assert_eq!(&features[24..34], &[0; 10]);
    assert_eq!(board.heights_beside_well(), vec![2, 2, 2, 2, 2, 2, 2, 2, 2]);
}

#[test]
fn the_plain_heuristic() {
    assert_eq!(Board::new().naive_score(), 0);
    assert_eq!(board_of(&["0000010000", "0000101000"]).naive_score(), -10102);
    assert_eq!(board_of(&["0000011000", "0000100000"]).naive_score(), -10202);
    assert_eq!(board_of(&["0100000000", "0100000000", "1100000001"]).naive_score(), -3);
    let mut tall = Board::new();
    tall.set(0, 7, true);
    assert_eq!(tall.naive_score(), -(100 + 20));
}

#[test]
fn a_template_needs_a_top_and_a_rectangle() {
    assert!(is_valid_template(&["TT"]));
    assert!(is_valid_template(&["1 1", "1 1", "1 1", " T "]));
    assert!(is_valid_template(&["T T", " T "]));
    assert!(is_valid_template(&["x", "T"]));
    assert!(!is_valid_template(&[]));
    assert!(!is_valid_template(&[""]));
    assert!(!is_valid_template(&["", "T"]));
    assert!(!is_valid_template(&["1 1"]));
    assert!(!is_valid_template(&["t"]));
    assert!(!is_valid_template(&["T", "TT"]));
    assert!(!is_valid_template(&["TT", "T"]));
    assert!(!is_valid_template(&["T", "T"]));
    assert!(!is_valid_template(&["T ", "1 ", "T "]));
    assert!(!is_valid_template(&[" T", "TT"]));
}

#[test]
fn try_new_compiles_the_valid_templates_only() {
    assert!(SurfacePattern::try_new(&["1 1"]).is_none());
    assert!(SurfacePattern::try_new(&["T", "T"]).is_none());
    assert!(SurfacePattern::try_new(&["T", "TT"]).is_none());
    let pattern = SurfacePattern::try_new(&["TT"]).expect("a valid template");
    assert_eq!(Board::new().count_surface_pattern(&pattern), 9);
}
