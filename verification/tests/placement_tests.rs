use tetris_engine::board::Board;
use tetris_engine::piece::{Piece, PieceType};

fn board_of(rows: &[&str]) -> Board {
    let mut s = String::new();
    for _ in rows.len()..20 {
        s.push_str("0000000000");
    }
    for r in rows {
        s.push_str(r);
    }
    Board::from_compact(&s)
}

fn flat_i(row: isize, left: isize) -> Piece {
    Piece { type_: PieceType::I, grid: 0x00f0, pos: (row - 2, left) }
}

fn upright_i(top: isize, col: isize) -> Piece {
    Piece { type_: PieceType::I, grid: 0x2222, pos: (top, col - 2) }
}

fn square(top: isize, left: isize) -> Piece {
    Piece { type_: PieceType::O, grid: 0x0660, pos: (top - 1, left - 1) }
}

#[test]
fn a_piece_overlaps_blocks_walls_and_floor_but_not_the_sky() {
    let board = board_of(&["0000100000"]);
    assert!(!board.piece_overlaps(&flat_i(19, 0)));
    assert!(board.piece_overlaps(&flat_i(19, 1)));
    assert!(board.piece_overlaps(&flat_i(19, 4)));
    assert!(!board.piece_overlaps(&flat_i(19, 5)));
    assert!(!board.piece_overlaps(&flat_i(19, 6)));
    assert!(board.piece_overlaps(&flat_i(19, 7)));
    assert!(board.piece_overlaps(&flat_i(19, -1)));
    assert!(board.piece_overlaps(&flat_i(20, 0)));
    assert!(!board.piece_overlaps(&flat_i(-1, 0)));
    assert!(!board.piece_overlaps(&upright_i(-3, 4)));
    assert!(!board.piece_overlaps(&upright_i(15, 4)));
    assert!(board.piece_overlaps(&upright_i(16, 4)));
    assert!(board.piece_overlaps(&upright_i(-3, 10)));
}

#[test]
fn an_overlapping_piece_never_fits() {
    let board = board_of(&["0000100000", "0000100000"]);
    for row in 15..21 {
        for left in -2..9 {
            for piece in [flat_i(row, left), upright_i(row - 3, left), square(row - 1, left)] {
                if board.piece_overlaps(&piece) {
                    assert!(!board.can_fit_piece(&piece));
                }
            }
        }
    }
    assert!(board.piece_overlaps(&square(18, 3)));
    assert!(!board.can_fit_piece(&square(18, 3)));
}

#[test]
fn a_piece_above_the_stack_is_reachable() {
    let board = board_of(&["0000100000", "0000100000"]);
    assert!(board.piece_reachable_simple(&flat_i(17, 2)));
    assert!(board.piece_reachable_simple(&flat_i(19, 0)));
    assert!(board.piece_reachable_simple(&flat_i(19, 5)));
    assert!(board.piece_reachable_simple(&flat_i(-1, 3)));
    assert!(board.piece_reachable_simple(&upright_i(14, 4)));
    assert!(!board.piece_reachable_simple(&upright_i(15, 4)));
    assert!(!board.piece_reachable_simple(&flat_i(18, 3)));
    assert!(!board.piece_reachable_simple(&flat_i(20, 0)));
    assert!(!board.piece_reachable_simple(&flat_i(21, 0)));
}

#[test]
fn a_piece_under_an_overhang_is_not_reachable_by_falling() {
    let board = board_of(&["0000010000", "0000000000"]);
    assert!(!board.piece_overlaps(&flat_i(19, 2)));
    assert!(!board.piece_reachable_simple(&flat_i(19, 2)));
    assert!(board.piece_reachable_simple(&flat_i(19, 1)));
}

#[test]
fn one_column_step_tucks_a_piece_under_an_overhang() {
    let board = board_of(&["0000010000", "0000000000"]);
    // cells (19, 2..6): one step to the left clears the overhang
    assert!(board.can_fit_piece(&flat_i(19, 2)));
    // cells (19, 5..9): one step to the right clears the overhang
    assert!(board.can_fit_piece(&flat_i(19, 5)));
    // cells (19, 3..7) and (19, 4..8): no single step clears it
    assert!(!board.can_fit_piece(&flat_i(19, 3)));
    assert!(!board.can_fit_piece(&flat_i(19, 4)));
    // free of the overhang altogether
    assert!(board.can_fit_piece(&flat_i(19, 0)));
    assert!(board.can_fit_piece(&flat_i(19, 6)));
}

#[test]
fn one_rotation_step_spins_a_piece_under_an_overhang() {
    // column 4 is covered at row 17; the cell (18, 4) and the row below are free
    let board = board_of(&["0000100000", "0000000000", "1110011111"]);
    // T pointing down: cells (18, 2), (18, 3), (18, 4), (19, 3)
    let piece = Piece { type_: PieceType::T, grid: 0x0e40, pos: (17, 2) };
    assert_eq!(piece.cell_positions(), [(18, 2), (18, 3), (18, 4), (19, 3)]);
    assert!(!board.piece_overlaps(&piece));
    assert!(!board.piece_reachable_simple(&piece));
    // turned clockwise it stands in column 3 with its nose in column 2 and drops in
    let turned = Piece { type_: PieceType::T, grid: 0x4c40, pos: (17, 2) };
    assert_eq!(turned.cell_positions(), [(17, 3), (18, 2), (18, 3), (19, 3)]);
    assert!(!board.piece_overlaps(&turned));
    assert!(board.piece_reachable_simple(&turned));
    assert!(board.can_fit_piece(&piece));
}

#[test]
fn insert_piece_unchecked_flips_the_cells() {
    let mut board = Board::new();
    board.insert_piece_unchecked(&square(18, 0));
    assert_eq!(
        board.to_compact_string(),
        board_of(&["1100000000", "1100000000"]).to_compact_string()
    );
    board.insert_piece_unchecked(&flat_i(19, 1));
    assert_eq!(
        board.to_compact_string(),
        board_of(&["1100000000", "1011100000"]).to_compact_string()
    );
    assert_eq!(board.score(), 0);
}

#[test]
fn insert_piece_unchecked_skips_cells_above_the_board() {
    let mut board = Board::new();
    board.insert_piece_unchecked(&upright_i(-2, 6));
    let mut expected = Board::new();
    expected.set(0, 6, true);
    expected.set(1, 6, true);
    assert_eq!(board.to_compact_string(), expected.to_compact_string());
}

#[test]
fn rest_positions_of_the_empty_board() {
    let rest = Board::new().find_rest_positions();
    let expected: Vec<(isize, isize)> = (0..10).map(|j| (19, j)).collect();
    assert_eq!(rest, expected);
}

#[test]
fn rest_positions_include_covered_gaps() {
    let board = board_of(&["0100000001", "0000000001", "0100000001"]);
    let mut expected: Vec<(isize, isize)> = vec![(19, 0), (16, 1), (18, 1)];
    for j in 2..9 {
        expected.push((19, j));
    }
    expected.push((16, 9));
    assert_eq!(board.find_rest_positions(), expected);
}

#[test]
fn rest_positions_leave_out_a_column_that_reaches_the_top() {
    let mut board = Board::new();
    for i in 0..20 {
        board.set(i, 3, true);
    }
    let rest = board.find_rest_positions();
    assert_eq!(rest.len(), 9);
    assert!(rest.iter().all(|p| p.1 != 3 && p.0 == 19));
}

#[test]
fn the_square_has_nine_choices_on_the_empty_board() {
    let board = Board::new();
    let pieces = board.fitting_pieces(PieceType::O);
    let expected: Vec<Piece> = (0..9).map(|left| square(18, left)).collect();
    assert_eq!(pieces, expected);

    let choices = board.find_choices(PieceType::O);
    assert_eq!(choices.len(), 9);
    for (left, choice) in choices.iter().enumerate() {
        let mut want = Board::new();
        for (i, j) in [(18, left), (18, left + 1), (19, left), (19, left + 1)] {
            want.set(i, j, true);
        }
        assert_eq!(choice.to_compact_string(), want.to_compact_string());
        assert_eq!(choice.score(), 0);
        assert_eq!(choice.lines_cleared(), 0);
    }
    for a in 0..choices.len() {
        for b in 0..a {
            assert_ne!(choices[a].to_compact_string(), choices[b].to_compact_string());
        }
    }
}

#[test]
fn the_bar_has_seventeen_choices_on_the_empty_board() {
    let board = Board::new();
    let pieces = board.fitting_pieces(PieceType::I);
    let mut expected: Vec<Piece> = (0..7).map(|left| flat_i(19, left)).collect();
    expected.extend((0..10).map(|col| upright_i(16, col)));
    assert_eq!(pieces, expected);
    assert_eq!(board.find_choices(PieceType::I).len(), 17);
}

#[test]
fn the_number_of_choices_of_each_type_on_the_empty_board() {
    let board = Board::new();
    // flat placements: 11 - width; two or four rotation states each
    assert_eq!(board.find_choices(PieceType::J).len(), 8 + 9 + 8 + 9);
    assert_eq!(board.find_choices(PieceType::L).len(), 8 + 9 + 8 + 9);
    assert_eq!(board.find_choices(PieceType::S).len(), 8 + 9);
    assert_eq!(board.find_choices(PieceType::Z).len(), 8 + 9);
    assert_eq!(board.find_choices(PieceType::T).len(), 8 + 9 + 8 + 9);
}

#[test]
fn choices_come_in_the_order_of_placements_without_repeats() {
    let board = board_of(&["0100000001", "0000000001", "0100000001"]);
    for t in PieceType::list() {
        let pieces = board.fitting_pieces(*t);
        for k in 1..pieces.len() {
            assert!(pieces[k - 1].precedes(&pieces[k]));
            assert!(pieces[k - 1] < pieces[k]);
        }
        for piece in &pieces {
            assert!(board.can_fit_piece(piece));
            assert_eq!(piece.type_, *t);
        }
        assert_eq!(board.find_choices(*t).len(), pieces.len());
    }
}

#[test]
fn a_choice_that_completes_a_row_is_cleared_and_scored() {
    let board = board_of(&["1111111100"]);
    let choices = board.find_choices(PieceType::O);
    let cleared: Vec<&Board> = choices.iter().filter(|b| b.lines_cleared() == 1).collect();
    assert_eq!(cleared.len(), 1);
    assert_eq!(cleared[0].score(), 40);
    assert_eq!(cleared[0].tetrises(), 0);
    assert_eq!(
        cleared[0].to_compact_string(),
        board_of(&["0000000011"]).to_compact_string()
    );
    for choice in &choices {
        assert_eq!(choice.full_rows(), 0);
    }
}

#[test]
fn an_upright_bar_in_a_well_clears_four_rows() {
    let board = board_of(&["0111111111", "0111111111", "0111111111", "0111111111"]);
    let choices = board.find_choices(PieceType::I);
    let tetris: Vec<&Board> = choices.iter().filter(|b| b.tetrises() == 1).collect();
    assert_eq!(tetris.len(), 1);
    assert_eq!(tetris[0].score(), 1200);
    assert_eq!(tetris[0].lines_cleared(), 4);
    assert_eq!(tetris[0].to_compact_string(), "0".repeat(200));
}

#[test]
fn a_full_board_offers_no_choice() {
    let mut board = Board::new();
    for i in 0..20 {
        for j in 0..9 {
            board.set(i, j, true);
        }
    }
    board.set(0, 9, true);
    for t in PieceType::list() {
        assert_eq!(board.find_choices(*t).len(), 0);
    }
}
