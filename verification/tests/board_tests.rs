use tetris_engine::board::Board;
use tetris_engine::col::BoardCol;
use tetris_engine::row::BoardRow;

fn board_of(rows: &[&str]) -> Board {
    let mut s = String::new();
    for _ in rows.len()..20 {
        s.push_str("0000000000");
    }
    for r in rows {
        s.push_str(r);
    }
    Board::from_compact(&s)
}

#[test]
fn new_board_is_empty_with_fresh_counters() {
    let board = Board::new();
    assert_eq!(board.to_compact_string(), "0".repeat(200));
    assert_eq!(board.lines_cleared(), 0);
    assert_eq!(board.lines_cleared_max(), 130);
    assert_eq!(board.score(), 0);
    assert_eq!(board.tetrises(), 0);
    assert!(!board.finished());
    for i in 0..20 {
        for j in 0..10 {
            assert!(!board.get(i, j));
        }
    }
}

#[test]
fn with_lines_cleared_max_sets_the_maximum() {
    let board = Board::with_lines_cleared_max(7);
    assert_eq!(board.lines_cleared_max(), 7);
    assert_eq!(board.to_compact_string(), "0".repeat(200));
}

#[test]
fn set_get_and_flip_agree_by_rows_and_columns() {
    let mut board = Board::new();
    board.set(3, 4, true);
    assert!(board.get(3, 4));
    assert!(board.row(3).get(4));
    assert!(board.col(4).get(3));
    assert!(!board.get(4, 3));
    board.set(3, 4, true);
    assert!(board.get(3, 4));
    board.flip(3, 4);
    assert!(!board.get(3, 4));
    assert!(!board.col(4).get(3));
    board.flip(19, 9);
    assert!(board.get(19, 9));
    assert_eq!(board.col(9).height(), 1);
    board.set(19, 9, false);
    assert!(!board.get(19, 9));
    assert_eq!(board.to_compact_string(), "0".repeat(200));
}

#[test]
fn get_signed_reads_walls_floor_and_sky() {
    let mut board = Board::new();
    board.set(0, 0, true);
    assert!(board.get_signed(0, 0));
    assert!(!board.get_signed(1, 0));
    assert!(board.get_signed(5, -1));
    assert!(board.get_signed(5, 10));
    assert!(board.get_signed(20, 3));
    assert!(board.get_signed(25, 3));
    assert!(!board.get_signed(-1, 3));
    assert!(board.get_signed(-1, -1));
    assert!(board.get_signed(-1, 10));
    assert!(!board.get_signed(19, 9));
}

#[test]
fn compact_string_round_trip() {
    let mut s = String::new();
    for x in 0..200 {
        s.push(if (x * 7 + x / 13) % 3 == 0 { '1' } else { '0' });
    }
    let board = Board::from_compact(&s);
    assert_eq!(board.to_compact_string(), s);
    let again = Board::from_compact(&board.to_compact_string());
    assert_eq!(again.to_compact_string(), s);
    for x in 0..200 {
        assert_eq!(board.get(x / 10, x % 10), s.as_bytes()[x] == b'1');
    }
}

#[test]
fn from_compact_takes_short_strings_and_other_symbols() {
    let board = Board::from_compact("01x1");
    assert!(!board.get(0, 0));
    assert!(board.get(0, 1));
    assert!(!board.get(0, 2));
    assert!(board.get(0, 3));
    assert_eq!(board.to_compact_string(), format!("0101{}", "0".repeat(196)));
}

#[test]
fn remove_row_shifts_the_rows_above() {
    let mut board = board_of(&["1000000000", "0100000000", "0010000000"]);
    board.remove_row(18);
    assert_eq!(
        board.to_compact_string(),
        board_of(&["1000000000", "0010000000"]).to_compact_string()
    );
    assert_eq!(board.col(0).height(), 2);
    assert_eq!(board.col(1).height(), 0);
    assert_eq!(board.col(2).height(), 1);
    board.remove_row(0);
    assert_eq!(
        board.to_compact_string(),
        board_of(&["1000000000", "0010000000"]).to_compact_string()
    );
}

#[test]
fn clearing_one_row_scores_40() {
    let mut board = board_of(&["0100000000", "1111111111"]);
    assert_eq!(board.full_rows(), 1);
    board.remove_clears();
    assert_eq!(board.score(), 40);
    assert_eq!(board.tetrises(), 0);
    assert_eq!(board.lines_cleared(), 1);
    assert_eq!(board.to_compact_string(), board_of(&["0100000000"]).to_compact_string());
}

#[test]
fn clearing_two_rows_scores_100() {
    let mut board = board_of(&["1111111111", "0100000000", "1111111111"]);
    board.remove_clears();
    assert_eq!(board.score(), 100);
    assert_eq!(board.tetrises(), 0);
    assert_eq!(board.lines_cleared(), 2);
    assert_eq!(board.to_compact_string(), board_of(&["0100000000"]).to_compact_string());
}

#[test]
fn clearing_three_rows_scores_300() {
    let mut board = board_of(&["1111111111", "1111111111", "0000000001", "1111111111"]);
    board.remove_clears();
    assert_eq!(board.score(), 300);
    assert_eq!(board.tetrises(), 0);
    assert_eq!(board.lines_cleared(), 3);
    assert_eq!(board.to_compact_string(), board_of(&["0000000001"]).to_compact_string());
}

#[test]
fn clearing_four_rows_scores_1200_and_counts_a_tetris() {
    let mut board =
        board_of(&["0000000010", "1111111111", "1111111111", "1111111111", "1111111111"]);
    assert_eq!(board.full_rows(), 4);
    board.remove_clears();
    assert_eq!(board.score(), 1200);
    assert_eq!(board.tetrises(), 1);
    assert_eq!(board.lines_cleared(), 4);
    assert!(!board.finished());
    assert_eq!(board.to_compact_string(), board_of(&["0000000010"]).to_compact_string());
}

#[test]
fn clearing_nothing_scores_nothing() {
    let mut board = board_of(&["0111111111", "1011111111"]);
    let before = board.to_compact_string();
    board.remove_clears();
    assert_eq!(board.score(), 0);
    assert_eq!(board.tetrises(), 0);
    assert_eq!(board.lines_cleared(), 0);
    assert_eq!(board.to_compact_string(), before);
}

#[test]
fn scores_add_up_over_passes() {
    let mut board = board_of(&["1111111111"]);
    board.remove_clears();
    for j in 0..10 {
        board.set(19, j, true);
        board.set(18, j, true);
    }
    board.remove_clears();
    assert_eq!(board.score(), 140);
    assert_eq!(board.lines_cleared(), 3);
    assert_eq!(board.tetrises(), 0);
}

#[test]
fn remove_clears_twice_is_remove_clears_once() {
    let mut board = board_of(&["1111111111", "0100000000", "1111111111", "0011111111"]);
    board.remove_clears();
    let grid = board.to_compact_string();
    let (score, lines, tetrises, finished) =
        (board.score(), board.lines_cleared(), board.tetrises(), board.finished());
    assert_eq!(board.full_rows(), 0);
    board.remove_clears();
    assert_eq!(board.to_compact_string(), grid);
    assert_eq!(board.score(), score);
    assert_eq!(board.lines_cleared(), lines);
    assert_eq!(board.tetrises(), tetrises);
    assert_eq!(board.finished(), finished);
}

#[test]
fn the_game_ends_when_the_cleared_rows_reach_the_maximum() {
    let mut board = Board::with_lines_cleared_max(3);
    for j in 0..10 {
        board.set(19, j, true);
        board.set(18, j, true);
    }
    board.remove_clears();
    assert_eq!(board.lines_cleared(), 2);
    assert!(!board.finished());
    for j in 0..10 {
        board.set(19, j, true);
    }
    board.remove_clears();
    assert_eq!(board.lines_cleared(), 3);
    assert!(board.finished());
}

#[test]
fn mark_finished_ends_the_game_and_keeps_the_rest() {
    let mut board = board_of(&["0100000000"]);
    let before = board.to_compact_string();
    board.mark_finished();
    assert!(board.finished());
    assert_eq!(board.to_compact_string(), before);
    assert_eq!(board.score(), 0);
}

#[test]
fn counters_fit_on_a_fresh_board() {
    assert!(Board::new().counters_fit());
}

#[test]
fn clone_copies_the_board() {
    let mut board = board_of(&["0100000000", "1111111111"]);
    let copy = board.clone();
    board.remove_clears();
    assert_eq!(copy.full_rows(), 1);
    assert_eq!(copy.score(), 0);
    assert_eq!(board.score(), 40);
}

#[test]
fn heights_are_measured_from_the_floor() {
    let board = board_of(&["0000000001", "0000000000", "0100000000", "1100000000"]);
    assert_eq!(board.heights(), [1, 2, 0, 0, 0, 0, 0, 0, 0, 4]);
    let mut full = Board::new();
    full.set(0, 3, true);
    assert_eq!(full.heights()[3], 20);
}

#[test]
fn row_set_flip_get_and_full() {
    let mut row = BoardRow::default();
    assert!(!row.full());
    for j in 0..10 {
        assert!(!row.get(j));
        row.set(j, true);
        assert!(row.get(j));
    }
    assert!(row.full());
    row.flip(9);
    assert!(!row.full());
    assert!(!row.get(9));
    assert!(row.get(8));
    row.set(0, false);
    assert!(!row.get(0));
    row.set(0, false);
    assert!(!row.get(0));
    row.flip(0);
    row.flip(9);
    assert!(row.full());
}

#[test]
fn column_height_top_and_cells() {
    let mut col = BoardCol::default();
    assert_eq!(col.height(), 0);
    assert_eq!(col.top(), 20);
    col.set(19, true);
    assert_eq!(col.height(), 1);
    assert_eq!(col.top(), 19);
    col.flip(12);
    assert_eq!(col.height(), 8);
    assert_eq!(col.top(), 12);
    assert!(col.get(12));
    assert!(!col.get(13));
    assert!(col.get_minus1(13));
    assert!(!col.get_minus1(12));
    assert!(col.get_minus1(20));
    assert!(!col.get_minus1(0));
    col.set(0, true);
    assert_eq!(col.height(), 20);
    assert_eq!(col.top(), 0);
    assert!(col.get_minus1(1));
    col.set(0, false);
    col.set(12, false);
    assert_eq!(col.height(), 1);
}

#[test]
fn column_remove_row_moves_the_cells_above_down() {
    let mut col = BoardCol::default();
    col.set(19, true);
    col.set(17, true);
    col.set(10, true);
    col.remove_row(18);
    assert!(col.get(19));
    assert!(col.get(18));
    assert!(!col.get(17));
    assert!(col.get(11));
    assert!(!col.get(10));
    assert_eq!(col.height(), 9);
    col.remove_row(19);
    assert!(col.get(19));
    assert!(col.get(12));
    assert_eq!(col.height(), 8);
    let mut top = BoardCol::default();
    top.set(0, true);
    top.remove_row(0);
    assert_eq!(top.height(), 0);
}

#[test]
fn column_rest_positions() {
    let empty = BoardCol::default();
    assert_eq!(empty.find_rest_positions(4), vec![(19, 4)]);

    let mut col = BoardCol::default();
    col.set(19, true);
    col.set(17, true);
    assert_eq!(col.find_rest_positions(2), vec![(16, 2), (18, 2)]);

    let mut floating = BoardCol::default();
    floating.set(10, true);
    floating.set(14, true);
    assert_eq!(floating.find_rest_positions(0), vec![(9, 0), (13, 0), (19, 0)]);

    let mut solid = BoardCol::default();
    for i in 15..20 {
        solid.set(i, true);
    }
    assert_eq!(solid.find_rest_positions(7), vec![(14, 7)]);

    let mut full = BoardCol::default();
    for i in 0..20 {
        full.set(i, true);
    }
    assert_eq!(full.find_rest_positions(1), Vec::<(isize, isize)>::new());

    let mut capped = BoardCol::default();
    capped.set(0, true);
    assert_eq!(capped.find_rest_positions(3), vec![(19, 3)]);
}

#[test]
fn column_overhangs() {
    assert_eq!(BoardCol::default().overhangs(), Vec::<isize>::new());

    let mut col = BoardCol::default();
    col.set(19, true);
    col.set(17, true);
    col.set(13, true);
    assert_eq!(col.overhangs(), vec![14, 18]);

    let mut solid = BoardCol::default();
    for i in 15..20 {
        solid.set(i, true);
    }
    assert_eq!(solid.overhangs(), Vec::<isize>::new());

    let mut floating = BoardCol::default();
    floating.set(18, true);
    assert_eq!(floating.overhangs(), vec![19]);
}
