use tetris_engine::board::Board;

fn board_of(rows: &[&str]) -> Board {
    let mut s = String::new();
    for _ in rows.len()..20 {
        s.push_str("0000000000");
    }
    for r in rows {
        s.push_str(r);
    }
    Board::from_compact(&s)
}

#[test]
fn an_enclosed_cell_is_one_overhang_and_one_hole() {
    let board = board_of(&["0000010000", "0000101000"]);
    assert_eq!(board.overhangs(), vec![(19, 5)]);
    assert_eq!(board.holes(), vec![(19, 5)]);
}

#[test]
fn an_enclosed_cell_against_the_wall() {
    let board = board_of(&["1000000001", "0100000010"]);
    assert_eq!(board.overhangs(), vec![(19, 0), (19, 9)]);
    assert_eq!(board.holes(), vec![(19, 0), (19, 9)]);
}

#[test]
fn an_overhang_open_to_one_side_is_no_hole() {
    let board = board_of(&["0000010000", "0000100000"]);
    assert_eq!(board.overhangs(), vec![(19, 5)]);
    assert_eq!(board.holes(), Vec::<(isize, isize)>::new());
}

#[test]
fn an_overhang_two_deep_counts_as_a_hole() {
    let board = board_of(&["0000011000", "0000100000"]);
    assert_eq!(board.overhangs(), vec![(19, 5), (19, 6)]);
    assert_eq!(board.holes(), vec![(19, 5)]);
    let mirrored = board_of(&["0001100000", "0000010000"]);
    assert_eq!(mirrored.overhangs(), vec![(19, 3), (19, 4)]);
    assert_eq!(mirrored.holes(), vec![(19, 4)]);
}

#[test]
fn overhangs_are_listed_by_columns_from_the_top_down() {
    let board = board_of(&["0100000010", "0000000000", "0100000010", "0000000010"]);
    assert_eq!(board.overhangs(), vec![(17, 1), (19, 1), (17, 8)]);
    assert_eq!(board.holes(), Vec::<(isize, isize)>::new());
}

#[test]
fn the_empty_board_has_neither_overhangs_nor_holes() {
    let board = Board::new();
    assert_eq!(board.overhangs(), Vec::<(isize, isize)>::new());
    assert_eq!(board.holes(), Vec::<(isize, isize)>::new());
}

#[test]
fn readiness_needs_one_lowest_column() {
    assert_eq!(Board::new().tetris_readiness(), None);
    assert_eq!(board_of(&["0011111111"]).tetris_readiness(), None);
    assert_eq!(board_of(&["0111111111"]).tetris_readiness(), Some((1, 0)));
    assert_eq!(board_of(&["1111111110"]).tetris_readiness(), Some((1, 9)));
}

#[test]
fn readiness_depth_counts_rows_without_a_gap() {
    let four = board_of(&["0111111111", "0111111111", "0111111111", "0111111111"]);
    assert_eq!(four.tetris_readiness(), Some((4, 0)));
    let five =
        board_of(&["1101111111", "1101111111", "1101111111", "1101111111", "1101111111"]);
    assert_eq!(five.tetris_readiness(), Some((4, 2)));
    let gap = board_of(&["0111111111", "0111111111", "0111011111", "0111111111"]);
    assert_eq!(gap.tetris_readiness(), Some((1, 0)));
    let none = board_of(&["0111111111", "0111111110"]);
    assert_eq!(none.tetris_readiness(), Some((0, 0)));
    let raised = board_of(&["1101111111", "1101111111", "1111111111"]);
    assert_eq!(raised.tetris_readiness(), Some((2, 2)));
}

#[test]
fn readiness_stops_at_the_top_of_the_board() {
    let mut rows = vec!["0111111111", "0111111111"];
    rows.extend(std::iter::repeat("1111111111").take(18));
    let board = board_of(&rows);
    assert_eq!(board.heights()[0], 18);
    assert_eq!(board.tetris_readiness(), Some((2, 0)));
    let mut rows = vec!["1111111110"];
    rows.extend(std::iter::repeat("1111111111").take(19));
    assert_eq!(board_of(&rows).tetris_readiness(), Some((1, 9)));
}
