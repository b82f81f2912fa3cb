use tetris_engine::piece::{find_grid_i, Piece, PieceType, RotateDir};

#[test]
fn list_holds_the_seven_types_in_order() {
    let list = PieceType::list();
    assert_eq!(
        *list,
        [
            PieceType::I,
            PieceType::O,
            PieceType::J,
            PieceType::L,
            PieceType::S,
            PieceType::Z,
            PieceType::T
        ]
    );
    for (k, t) in list.iter().enumerate() {
        assert_eq!(t.ordinal() as usize, k);
    }
}

#[test]
fn rotation_tables() {
    assert_eq!(PieceType::I.grids(), [0x00f0, 0x2222, 0x00f0, 0x2222]);
    assert_eq!(PieceType::O.grids(), [0x0660, 0x0660, 0x0660, 0x0660]);
    assert_eq!(PieceType::J.grids(), [0x0e20, 0x44c0, 0x8e00, 0x6440]);
    assert_eq!(PieceType::L.grids(), [0x0e80, 0xc440, 0x2e00, 0x4460]);
    assert_eq!(PieceType::S.grids(), [0x06c0, 0x4620, 0x06c0, 0x4620]);
    assert_eq!(PieceType::Z.grids(), [0x0c60, 0x2640, 0x0c60, 0x2640]);
    assert_eq!(PieceType::T.grids(), [0x0e40, 0x4c40, 0x4e00, 0x4640]);
}

#[test]
fn every_mask_has_four_cells() {
    for t in PieceType::list() {
        for g in t.grids() {
            assert_eq!(g.count_ones(), 4);
        }
    }
}

#[test]
fn number_of_rotations_counts_the_distinct_masks() {
    for t in PieceType::list() {
        let piece = Piece { type_: *t, grid: t.grids()[0], pos: (0, 0) };
        let mut masks = t.grids().to_vec();
        masks.sort();
        masks.dedup();
        assert_eq!(piece.num_rotations(), masks.len());
    }
}

#[test]
fn find_grid_i_gives_the_first_place() {
    assert_eq!(find_grid_i([5, 6, 7, 8], 5), 0);
    assert_eq!(find_grid_i([5, 6, 7, 8], 7), 2);
    assert_eq!(find_grid_i([5, 6, 7, 8], 8), 3);
    assert_eq!(find_grid_i([5, 6, 5, 6], 6), 1);
    assert_eq!(find_grid_i(PieceType::I.grids(), 0x00f0), 0);
}

#[test]
fn rotate_steps_through_the_table() {
    let mut piece = Piece { type_: PieceType::T, grid: 0x0e40, pos: (3, 4) };
    piece.rotate(RotateDir::Cw);
    assert_eq!(piece, Piece { type_: PieceType::T, grid: 0x4c40, pos: (3, 4) });
    piece.rotate(RotateDir::Cw);
    assert_eq!(piece.grid, 0x4e00);
    piece.rotate(RotateDir::Cw);
    assert_eq!(piece.grid, 0x4640);
    piece.rotate(RotateDir::Cw);
    assert_eq!(piece.grid, 0x0e40);
    piece.rotate(RotateDir::Ccw);
    assert_eq!(piece.grid, 0x4640);
    piece.rotate(RotateDir::Ccw);
    assert_eq!(piece.grid, 0x4e00);
}

#[test]
fn rotate_with_repeated_masks_goes_by_the_first_place() {
    let mut piece = Piece { type_: PieceType::I, grid: 0x00f0, pos: (0, 0) };
    piece.rotate(RotateDir::Cw);
    assert_eq!(piece.grid, 0x2222);
    piece.rotate(RotateDir::Cw);
    assert_eq!(piece.grid, 0x00f0);
    piece.rotate(RotateDir::Ccw);
    assert_eq!(piece.grid, 0x2222);
    let mut square = Piece { type_: PieceType::O, grid: 0x0660, pos: (1, 1) };
    square.rotate(RotateDir::Ccw);
    assert_eq!(square, Piece { type_: PieceType::O, grid: 0x0660, pos: (1, 1) });
}

#[test]
fn cell_positions_are_read_from_the_top_left() {
    let t = Piece { type_: PieceType::T, grid: 0x0e40, pos: (3, 4) };
    assert_eq!(t.cell_positions(), [(4, 4), (4, 5), (4, 6), (5, 5)]);
    let i = Piece { type_: PieceType::I, grid: 0x2222, pos: (-2, -1) };
    assert_eq!(i.cell_positions(), [(-2, 1), (-1, 1), (0, 1), (1, 1)]);
    let o = Piece { type_: PieceType::O, grid: 0x0660, pos: (0, 0) };
    assert_eq!(o.cell_positions(), [(1, 1), (1, 2), (2, 1), (2, 2)]);
    let corner = Piece { type_: PieceType::J, grid: 0x8e00, pos: (10, 0) };
    assert_eq!(corner.cell_positions(), [(10, 0), (11, 0), (11, 1), (11, 2)]);
}

#[test]
fn at_reads_bits_from_the_low_end() {
    let piece = Piece { type_: PieceType::O, grid: 0x0660, pos: (0, 0) };
    assert!(!piece.at(0, 0));
    assert!(piece.at(1, 1));
    assert!(piece.at(1, 2));
    assert!(piece.at(2, 1));
    assert!(piece.at(2, 2));
    assert!(!piece.at(3, 3));
    let low = Piece { type_: PieceType::I, grid: 0x0001, pos: (0, 0) };
    assert!(low.at(0, 0));
    assert!(!low.at(0, 1));
    let high = Piece { type_: PieceType::I, grid: 0x8000, pos: (0, 0) };
    assert!(high.at(3, 3));
}

#[test]
fn placements_are_ordered_by_type_mask_row_and_column() {
    let a = Piece { type_: PieceType::I, grid: 0x2222, pos: (5, 5) };
    let b = Piece { type_: PieceType::O, grid: 0x0660, pos: (0, 0) };
    assert!(a.precedes(&b));
    assert!(!b.precedes(&a));
    let c = Piece { type_: PieceType::I, grid: 0x00f0, pos: (9, 9) };
    assert!(c.precedes(&a));
    let d = Piece { type_: PieceType::I, grid: 0x2222, pos: (5, 6) };
    assert!(a.precedes(&d));
    let e = Piece { type_: PieceType::I, grid: 0x2222, pos: (4, 9) };
    assert!(e.precedes(&a));
    let f = Piece { type_: PieceType::I, grid: 0x2222, pos: (-1, 9) };
    assert!(f.precedes(&e));
    assert!(!a.precedes(&a));
    assert!(a.same_as(&a));
    assert!(!a.same_as(&d));
    assert!(!a.same_as(&b));
    assert_eq!(a.precedes(&b), a < b);
    assert_eq!(c.precedes(&a), c < a);
    assert_eq!(f.precedes(&e), f < e);
}

#[test]
fn a_piece_is_well_formed_with_a_mask_of_its_type_in_range() {
    for t in PieceType::list() {
        for g in t.grids() {
            assert!(Piece { type_: *t, grid: g, pos: (-3, -3) }.is_well_formed());
            assert!(Piece { type_: *t, grid: g, pos: (19, 9) }.is_well_formed());
        }
    }
    assert!(!Piece { type_: PieceType::T, grid: 0x1234, pos: (0, 0) }.is_well_formed());
    assert!(!Piece { type_: PieceType::I, grid: 0x0660, pos: (0, 0) }.is_well_formed());
    assert!(!Piece { type_: PieceType::O, grid: 0, pos: (0, 0) }.is_well_formed());
    assert!(!Piece { type_: PieceType::O, grid: 0x0660, pos: (0, isize::MIN) }.is_well_formed());
    assert!(Piece { type_: PieceType::O, grid: 0x0660, pos: (0, isize::MIN + 1) }.is_well_formed());
    assert!(Piece { type_: PieceType::O, grid: 0x0660, pos: (isize::MIN, 0) }.is_well_formed());
    assert!(!Piece { type_: PieceType::O, grid: 0x0660, pos: (isize::MAX, 0) }.is_well_formed());
    assert!(!Piece { type_: PieceType::O, grid: 0x0660, pos: (isize::MAX - 2, 0) }.is_well_formed());
    assert!(Piece { type_: PieceType::O, grid: 0x0660, pos: (isize::MAX - 3, 0) }.is_well_formed());
    assert!(!Piece { type_: PieceType::O, grid: 0x0660, pos: (0, isize::MAX - 3) }.is_well_formed());
    assert!(Piece { type_: PieceType::O, grid: 0x0660, pos: (0, isize::MAX - 4) }.is_well_formed());
}
