use tetris_engine::board::Board;

#[test]
fn test_tetris_readiness() {
    let board = Board::from_compact(
        &[
            "0000000000",
            "0000000000",
            "0000000000",
            "0000000000",
            "0000000000",
            "0000000000",
            "0000000000",
            "0000000000",
            "0000000000",
            "0000000000",
            "0000000000",
            "0000000000",
            "0000000000",
            "0000000000",
            "0000000000",
            "0000000000",
            "1111111010",
            "1111111011",
            "1111111011",
            "0000001110",
        ] //        ^ depth: 2, column: 7
        .join(""),
    );

    assert_eq!(board.tetris_readiness(), Some((2, 7)));
}
