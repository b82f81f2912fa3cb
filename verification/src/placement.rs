//! Placing a piece: whether it overlaps the stack, whether it can be
//! reached, where pieces can come to rest, and the insertion itself.
//!
//! Reachability is approximated. A piece is reachable if it could have
//! fallen straight down to where it is, or if one rotation step or one
//! column step to either side leads to a position that is free and from
//! which it could have fallen straight down.

use crate::board::Board;
use crate::grid::{
    by_columns, column, column_height, positions, rest_rows, signed_cell, well_formed,
    with_cell_flipped, Grid,
};
use crate::piece::{Piece, RotateDir};
use vstd::prelude::*;

verus! {

/// Some cell of the piece lies on an occupied cell, in a wall or under the
/// floor.
pub open spec fn overlaps(g: Grid, p: Piece) -> bool {
    exists|k: int| 0 <= k < 4 && #[trigger] signed_cell(g, p.cells()[k].0, p.cells()[k].1)
}

/// The cell at `(i, j)` lies above the board or above the stack of its
/// column.
pub open spec fn clear_of_stack(g: Grid, i: int, j: int) -> bool {
    i < 0 || column_height(column(g, j)) < 20 - i
}

/// Every cell of the piece lies above the board or above the stack of its
/// column: the piece could have fallen straight down to where it is.
pub open spec fn reachable_simple(g: Grid, p: Piece) -> bool {
    forall|k: int| 0 <= k < 4 ==> #[trigger] clear_of_stack(g, p.cells()[k].0, p.cells()[k].1)
}

/// The piece is free of the stack and could have fallen straight down.
pub open spec fn drops_in(g: Grid, p: Piece) -> bool {
    !overlaps(g, p) && reachable_simple(g, p)
}

/// The piece can be placed: it is free of the stack, and it drops in
/// either as it is or after one rotation step or one column step.
pub open spec fn can_fit(g: Grid, p: Piece) -> bool {
    &&& !overlaps(g, p)
    &&& (reachable_simple(g, p) || drops_in(g, p.rotated(RotateDir::Cw)) || drops_in(
        g,
        p.rotated(RotateDir::Ccw),
    ) || drops_in(g, p.shifted(-1)) || drops_in(g, p.shifted(1)))
}

/// The piece has a cell at `(i, j)`.
pub open spec fn covers(p: Piece, i: int, j: int) -> bool {
    exists|k: int| 0 <= k < 4 && #[trigger] p.cells()[k] == (i, j)
}

/// The cells of the piece that are not above the board lie on the board.
pub open spec fn on_board(p: Piece) -> bool {
    forall|k: int|
        0 <= k < 4 ==> (#[trigger] p.cells()[k]).0 >= 0 ==> p.cells()[k].0 < 20 && 0
            <= p.cells()[k].1 < 10
}

/// The grid with every cell that the piece covers inverted.
pub open spec fn placed(g: Grid, p: Piece) -> Grid {
    Seq::new(20, |i: int| Seq::new(10, |j: int| g[i][j] != covers(p, i, j)))
}

/// The grid with the first `n` cells of the piece inverted, one after the
/// other, skipping those above the board.
spec fn placed_upto(g: Grid, p: Piece, n: int) -> Grid
    decreases n,
{
    if n <= 0 {
        g
    } else {
        let c = p.cells()[n - 1];
        if c.0 < 0 {
            placed_upto(g, p, n - 1)
        } else {
            with_cell_flipped(placed_upto(g, p, n - 1), c.0, c.1)
        }
    }
}

/// The first `n` cells of the piece hold `(i, j)`.
spec fn covers_upto(p: Piece, n: int, i: int, j: int) -> bool {
    exists|k: int| 0 <= k < n && #[trigger] p.cells()[k] == (i, j)
}

/// Inverting the first `n` cells of a piece one after the other inverts
/// exactly the cells that they cover.
proof fn lemma_placed_upto(g: Grid, p: Piece, n: int)
    requires
        well_formed(g),
        p.has_four_cells(),
        on_board(p),
        0 <= n <= 4,
    ensures
        well_formed(placed_upto(g, p, n)),
        forall|i: int, j: int|
            0 <= i < 20 && 0 <= j < 10 ==> #[trigger] placed_upto(g, p, n)[i][j] == (g[i][j]
                != covers_upto(p, n, i, j)),
    decreases n,
{
    if n > 0 {
        lemma_placed_upto(g, p, n - 1);
        p.lemma_cells();
    }
}

impl Board {
    /// Whether some cell of the piece lies on an occupied cell, in a wall
    /// or under the floor.
    pub fn piece_overlaps(&self, piece: &Piece) -> (b: bool)
        requires
            self.wf(),
            piece.has_four_cells(),
            piece.pos.0 + 3 <= isize::MAX,
            piece.pos.1 + 3 <= isize::MAX,
        ensures
            b == overlaps(self@.grid, *piece),
    {
        let cells = piece.cell_positions();
        for k in 0..4
            invariant
                self.wf(),
                cells@.len() == 4,
                forall|n: int|
                    0 <= n < 4 ==> ((#[trigger] cells@[n]).0 as int, cells@[n].1 as int)
                        == piece.cells()[n],
                forall|n: int|
                    0 <= n < k ==> !#[trigger] signed_cell(
                        self@.grid,
                        piece.cells()[n].0,
                        piece.cells()[n].1,
                    ),
        {
            let (i, j) = cells[k];
            if self.get_signed(i, j) {
                return true;
            }
        }
        false
    }

    /// Whether the piece can be placed where it is.
    pub fn can_fit_piece(&self, piece: &Piece) -> (b: bool)
        requires
            self.wf(),
            piece.wf(),
        ensures
            b == can_fit(self@.grid, *piece),
            overlaps(self@.grid, *piece) ==> !b,
    {
        proof {
            piece.lemma_wf_cells();
        }
        if self.piece_overlaps(piece) {
            return false;
        }
        proof {
            lemma_free_piece_on_board(self@.grid, *piece);
        }
        if self.piece_reachable_simple(piece) {
            return true;
        }
        let mut cw = piece.clone();
        cw.rotate(RotateDir::Cw);
        if self.piece_drops_in(&cw) {
            return true;
        }
        let mut ccw = piece.clone();
        ccw.rotate(RotateDir::Ccw);
        if self.piece_drops_in(&ccw) {
            return true;
        }
        let mut left = piece.clone();
        left.pos.1 += -1;
        if self.piece_drops_in(&left) {
            return true;
        }
        let mut right = piece.clone();
        right.pos.1 += 1;
        if self.piece_drops_in(&right) {
            return true;
        }
        false
    }

    /// Whether the piece is free of the stack and could have fallen
    /// straight down to where it is.
    fn piece_drops_in(&self, piece: &Piece) -> (b: bool)
        requires
            self.wf(),
            piece.has_four_cells(),
            piece.pos.0 + 3 <= isize::MAX,
            piece.pos.1 + 3 <= isize::MAX,
        ensures
            b == drops_in(self@.grid, *piece),
    {
        if self.piece_overlaps(piece) {
            return false;
        }
        proof {
            lemma_free_piece_on_board(self@.grid, *piece);
        }
        self.piece_reachable_simple(piece)
    }

    /// Whether every cell of the piece lies above the board or above the
    /// stack of its column.
    pub fn piece_reachable_simple(&self, piece: &Piece) -> (b: bool)
        requires
            self.wf(),
            piece.has_four_cells(),
            piece.pos.0 + 3 <= isize::MAX,
            piece.pos.1 + 3 <= isize::MAX,
            forall|k: int|
                0 <= k < 4 ==> 0 <= (#[trigger] piece.cells()[k]).0 <= 20 ==> 0
                    <= piece.cells()[k].1 < 10,
        ensures
            b == reachable_simple(self@.grid, *piece),
    {
        let cells = piece.cell_positions();
        for k in 0..4
            invariant
                self.wf(),
                cells@.len() == 4,
                forall|n: int|
                    0 <= n < 4 ==> ((#[trigger] cells@[n]).0 as int, cells@[n].1 as int)
                        == piece.cells()[n],
                forall|n: int|
                    0 <= n < 4 ==> 0 <= (#[trigger] piece.cells()[n]).0 <= 20 ==> 0
                        <= piece.cells()[n].1 < 10,
                forall|n: int|
                    0 <= n < k ==> #[trigger] clear_of_stack(
                        self@.grid,
                        piece.cells()[n].0,
                        piece.cells()[n].1,
                    ),
        {
            let (i, j) = cells[k];
            if i >= 0 {
                if i > 20 {
                    proof {
                        crate::grid::lemma_column_top(column(self@.grid, j as int));
                        assert(!clear_of_stack(
                            self@.grid,
                            piece.cells()[k as int].0,
                            piece.cells()[k as int].1,
                        ));
                    }
                    return false;
                }
                let cell_height: usize = 20 - i as usize;
                let col_height: usize = self.col(j as usize).height();

                if cell_height <= col_height {
                    assert(!clear_of_stack(
                        self@.grid,
                        piece.cells()[k as int].0,
                        piece.cells()[k as int].1,
                    ));
                    return false;
                }
            }
        }
        true
    }

    /// Inverts the cells that the piece covers, without any check that the
    /// piece fits.
    pub fn insert_piece_unchecked(&mut self, piece: &Piece)
        requires
            old(self).wf(),
            piece.has_four_cells(),
            piece.pos.0 + 3 <= isize::MAX,
            piece.pos.1 + 3 <= isize::MAX,
            on_board(*piece),
        ensures
            final(self).wf(),
            final(self)@ == old(self)@.with_grid(placed(old(self)@.grid, *piece)),
    {
        let cells = piece.cell_positions();
        let ghost g = self@.grid;
        for k in 0..4
            invariant
                self.wf(),
                well_formed(g),
                piece.has_four_cells(),
                on_board(*piece),
                cells@.len() == 4,
                forall|n: int|
                    0 <= n < 4 ==> ((#[trigger] cells@[n]).0 as int, cells@[n].1 as int)
                        == piece.cells()[n],
                self@ == old(self)@.with_grid(placed_upto(g, *piece, k as int)),
        {
            let (i, j) = cells[k];
            if i >= 0 {
                self.flip(i as usize, j as usize);
            }
        }
        proof {
            lemma_placed_upto(g, *piece, 4);
            assert(placed_upto(g, *piece, 4) =~~= placed(g, *piece));
        }
    }

    /// The positions on which a piece can come to rest, column by column
    /// from the left.
    pub fn find_rest_positions(&self) -> (res: Vec<(isize, isize)>)
        requires
            self.wf(),
        ensures
            positions(res@) == rest_positions(self@.grid),
    {
        let mut res: Vec<(isize, isize)> = Vec::new();

        for j in 0..10
            invariant
                self.wf(),
                positions(res@) == by_columns(rest_rows_of(self@.grid), j as int),
        {
            let mut part = self.col(j).find_rest_positions(j as isize);
            res.append(&mut part);
        }
        res
    }
}

/// The test that gives the resting rows of each column of a grid.
pub open spec fn rest_rows_of(g: Grid) -> spec_fn(int) -> Seq<int> {
    |j: int| rest_rows(column(g, j))
}

/// The positions on which a piece can come to rest, column by column from
/// the left and from the top down within a column.
pub open spec fn rest_positions(g: Grid) -> Seq<(int, int)> {
    by_columns(rest_rows_of(g), 10)
}

/// A piece that overlaps nothing has its cells on the board or above it.
pub proof fn lemma_free_piece_on_board(g: Grid, p: Piece)
    requires
        !overlaps(g, p),
    ensures
        on_board(p),
        forall|k: int|
            0 <= k < 4 ==> 0 <= (#[trigger] p.cells()[k]).0 <= 20 ==> 0 <= p.cells()[k].1 < 10,
{
    assert forall|k: int| 0 <= k < 4 implies ((#[trigger] p.cells()[k]).0 < 20 && 0
        <= p.cells()[k].1 < 10) by {
        assert(!signed_cell(g, p.cells()[k].0, p.cells()[k].1));
    }
}

/// A piece that overlaps the stack cannot be placed.
pub proof fn lemma_overlap_excludes_fit(g: Grid, p: Piece)
    requires
        overlaps(g, p),
    ensures
        !can_fit(g, p),
{
}

} // verus!
