//! The choices that an incoming piece offers: every placement that rests
//! on the stack and can be reached, each listed once, and the board that
//! each of them leads to.
//!
//! Placements are kept in a vector that is strictly increasing by
//! (type, mask, row, column), so that equal placements found in different
//! ways are stored once and the choices come out in a fixed order.

use crate::board::{lemma_clears_idempotent, Board, BoardView};
use crate::grid::{
    column, full_row_count, kept_rows, lemma_by_columns, lemma_kept_rows_step, lemma_rest_rows,
    positions, well_formed, Grid,
};
use crate::piece::{lemma_table_masks_have_four_cells, Piece, PieceType};
use crate::placement::{
    can_fit, lemma_free_piece_on_board, on_board, placed, rest_positions, rest_rows_of,
};
use vstd::prelude::*;

verus! {

impl PieceType {
    /// The place of the type in the fixed order I, O, J, L, S, Z, T.
    pub fn ordinal(&self) -> (n: u8)
        ensures
            n == self.index(),
    {
        match self {
            PieceType::I => 0,
            PieceType::O => 1,
            PieceType::J => 2,
            PieceType::L => 3,
            PieceType::S => 4,
            PieceType::Z => 5,
            PieceType::T => 6,
        }
    }
}

impl Piece {
    /// The order of placements: by type, then mask, then row, then column.
    pub open spec fn key_lt(self, other: Piece) -> bool {
        let a = self.type_.index();
        let b = other.type_.index();
        a < b || (a == b && (self.grid < other.grid || (self.grid == other.grid && (self.pos.0
            < other.pos.0 || (self.pos.0 == other.pos.0 && self.pos.1 < other.pos.1)))))
    }

    /// Whether this placement comes before `other`.
    pub fn precedes(&self, other: &Piece) -> (b: bool)
        ensures
            b == self.key_lt(*other),
    {
        let a = self.type_.ordinal();
        let b = other.type_.ordinal();
        a < b || (a == b && (self.grid < other.grid || (self.grid == other.grid && (self.pos.0
            < other.pos.0 || (self.pos.0 == other.pos.0 && self.pos.1 < other.pos.1)))))
    }

    /// Whether this placement is the same as `other`.
    pub fn same_as(&self, other: &Piece) -> (b: bool)
        ensures
            b == (*self == *other),
    {
        self.type_.ordinal() == other.type_.ordinal() && self.grid == other.grid && self.pos.0
            == other.pos.0 && self.pos.1 == other.pos.1
    }
}

/// The sequence is strictly increasing in the order of placements.
pub open spec fn strictly_sorted(s: Seq<Piece>) -> bool {
    forall|a: int, b: int| 0 <= a < b < s.len() ==> (#[trigger] s[a]).key_lt(#[trigger] s[b])
}

/// The placement of type `t` in rotation state `gi` whose cell number
/// `ci` lies on the position `rest`.
pub open spec fn anchored(t: PieceType, gi: int, ci: int, rest: (int, int)) -> Piece {
    let base = Piece { type_: t, grid: t.table()[gi], pos: (0, 0) };
    let cell = base.cells()[ci];
    Piece {
        type_: t,
        grid: base.grid,
        pos: ((rest.0 - cell.0) as isize, (rest.1 - cell.1) as isize),
    }
}

/// The placement arises from the triple `(gi, ci, ri)`: a rotation state,
/// a cell of the piece and a resting position of the grid.
pub open spec fn arises_from(g: Grid, t: PieceType, p: Piece, gi: int, ci: int, ri: int) -> bool {
    &&& 0 <= gi < 4
    &&& 0 <= ci < 4
    &&& 0 <= ri < rest_positions(g).len()
    &&& anchored(t, gi, ci, rest_positions(g)[ri]) == p
}

/// The placement puts one cell of the piece, in one of the rotation
/// states of type `t`, on a resting position of the grid.
pub open spec fn candidate(g: Grid, t: PieceType, p: Piece) -> bool {
    exists|gi: int, ci: int, ri: int| #[trigger] arises_from(g, t, p, gi, ci, ri)
}

/// A candidate placement that can be reached.
pub open spec fn accepted(g: Grid, t: PieceType, p: Piece) -> bool {
    candidate(g, t, p) && can_fit(g, p)
}

/// The sequence lists the accepted placements, each once, in order.
pub open spec fn lists_accepted(g: Grid, t: PieceType, s: Seq<Piece>) -> bool {
    &&& strictly_sorted(s)
    &&& forall|p: Piece| #[trigger] s.contains(p) <==> accepted(g, t, p)
}

/// The accepted placements of a piece of type `t`, each once, in order.
pub open spec fn fitting(g: Grid, t: PieceType) -> Seq<Piece> {
    choose|s: Seq<Piece>| lists_accepted(g, t, s)
}

/// The board after the piece is placed and the full rows are cleared.
pub open spec fn after_placing(b: BoardView, p: Piece) -> BoardView {
    b.with_grid(placed(b.grid, p)).after_clears()
}

/// No accepted placement of a piece of type `t` completes more than four
/// rows.
pub open spec fn clears_at_most_four(g: Grid, t: PieceType) -> bool {
    forall|p: Piece| #[trigger] accepted(g, t, p) ==> full_row_count(placed(g, p)) <= 4
}

/// The triple `(a, b, c)` comes before `(gi, ci, ri)` in the order in
/// which triples are tried.
spec fn tried_before(a: int, b: int, c: int, gi: int, ci: int, ri: int) -> bool {
    a < gi || (a == gi && (b < ci || (b == ci && c < ri)))
}

/// The placement arises from a triple tried before `(gi, ci, ri)`.
spec fn seen(g: Grid, t: PieceType, p: Piece, gi: int, ci: int, ri: int) -> bool {
    exists|a: int, b: int, c: int|
        #[trigger] arises_from(g, t, p, a, b, c) && tried_before(a, b, c, gi, ci, ri)
}

/// The sequence lists, each once and in order, the reachable placements
/// that arise from the triples tried before `(gi, ci, ri)`.
spec fn lists_seen(g: Grid, t: PieceType, s: Seq<Piece>, gi: int, ci: int, ri: int) -> bool {
    &&& strictly_sorted(s)
    &&& forall|p: Piece| #[trigger] s.contains(p) <==> seen(g, t, p, gi, ci, ri) && can_fit(g, p)
}

/// A strictly increasing sequence holds nothing twice.
pub proof fn lemma_sorted_no_repeat(s: Seq<Piece>)
    requires
        strictly_sorted(s),
    ensures
        s.no_duplicates(),
{
}

/// Two strictly increasing sequences with the same elements are equal.
pub proof fn lemma_sorted_unique(s1: Seq<Piece>, s2: Seq<Piece>)
    requires
        strictly_sorted(s1),
        strictly_sorted(s2),
        forall|p: Piece| #[trigger] s1.contains(p) <==> s2.contains(p),
    ensures
        s1 == s2,
    decreases s1.len(),
{
    if s1.len() == 0 {
        if s2.len() > 0 {
            assert(s1.contains(s2[0]));
        }
    } else {
        assert(s1.contains(s1[0]));
        assert(s1.contains(s2[0]));
        let t1 = s1.skip(1);
        let t2 = s2.skip(1);
        assert forall|p: Piece| #[trigger] t1.contains(p) <==> t2.contains(p) by {
            if t1.contains(p) {
                assert(s1.contains(p));
                let m = choose|m: int| 0 <= m < s2.len() && s2[m] == p;
                assert(t2[m - 1] == p);
            }
            if t2.contains(p) {
                assert(s1.contains(p));
                let m = choose|m: int| 0 <= m < s1.len() && s1[m] == p;
                assert(t1[m - 1] == p);
            }
        }
        lemma_sorted_unique(t1, t2);
        assert(s2 =~= seq![s2[0]] + t2);
    }
}

/// A sequence that lists the accepted placements is the list of them.
pub proof fn lemma_fitting_is(g: Grid, t: PieceType, s: Seq<Piece>)
    requires
        lists_accepted(g, t, s),
    ensures
        fitting(g, t) == s,
        lists_accepted(g, t, fitting(g, t)),
{
    lemma_sorted_unique(fitting(g, t), s);
}

/// Every resting position lies on the board.
pub proof fn lemma_rest_positions_on_board(g: Grid)
    requires
        well_formed(g),
    ensures
        forall|k: int|
            0 <= k < rest_positions(g).len() ==> 0 <= (#[trigger] rest_positions(g)[k]).0 < 20 && 0
                <= rest_positions(g)[k].1 < 10,
{
    let rp = rest_positions(g);
    lemma_by_columns(rest_rows_of(g), 10);
    assert forall|k: int| 0 <= k < rp.len() implies 0 <= (#[trigger] rp[k]).0 < 20 && 0 <= rp[k].1
        < 10 by {
        lemma_rest_rows(column(g, rp[k].1));
    }
}

/// An accepted placement is a piece of the type in one of its rotation
/// states, with every cell on the board or above it.
pub proof fn lemma_accepted_piece(g: Grid, t: PieceType, p: Piece)
    requires
        well_formed(g),
        accepted(g, t, p),
    ensures
        p.type_ == t,
        p.wf(),
        p.has_four_cells(),
        on_board(p),
        -3 <= p.pos.0 < 20,
        -3 <= p.pos.1 < 10,
{
    let (gi, ci, ri) = choose|gi: int, ci: int, ri: int| #[trigger]
        arises_from(g, t, p, gi, ci, ri);
    lemma_table_masks_have_four_cells(t, gi);
    lemma_rest_positions_on_board(g);
    let base = Piece { type_: t, grid: t.table()[gi], pos: (0, 0) };
    base.lemma_cells();
    lemma_free_piece_on_board(g, p);
}

/// The number of full rows among the first `i` rows.
spec fn full_rows_above(g: Grid, i: int) -> int {
    i - kept_rows(g.take(i)).len()
}

/// Among the first `i` rows, placing a piece completes no more rows than
/// the rows of its 4x4 square that lie among them.
proof fn lemma_placed_full_rows(g: Grid, p: Piece, i: int)
    requires
        well_formed(g),
        p.has_four_cells(),
        0 <= i <= 20,
    ensures
        full_rows_above(placed(g, p), i) <= full_rows_above(g, i) + if i <= p.pos.0 {
            0
        } else if i <= p.pos.0 + 4 {
            i - p.pos.0
        } else {
            4
        },
    decreases i,
{
    let h = placed(g, p);
    if i > 0 {
        lemma_placed_full_rows(g, p, i - 1);
        lemma_kept_rows_step(g, i - 1);
        lemma_kept_rows_step(h, i - 1);
        p.lemma_cells();
        if i - 1 < p.pos.0 || i - 1 > p.pos.0 + 3 {
            assert(h[i - 1] =~= g[i - 1]);
        }
    }
}

/// Placing one piece completes at most four rows.
pub proof fn lemma_placing_completes_at_most_four(g: Grid, p: Piece)
    requires
        well_formed(g),
        p.has_four_cells(),
    ensures
        full_row_count(placed(g, p)) <= full_row_count(g) + 4,
{
    lemma_placed_full_rows(g, p, 20);
    assert(g.take(20) =~= g);
    assert(placed(g, p).take(20) =~= placed(g, p));
}

/// On a grid without a full row, no placement completes more than four.
pub proof fn lemma_rested_grid_clears_at_most_four(g: Grid, t: PieceType)
    requires
        well_formed(g),
        full_row_count(g) == 0,
    ensures
        clears_at_most_four(g, t),
{
    assert forall|p: Piece| #[trigger] accepted(g, t, p) implies full_row_count(placed(g, p))
        <= 4 by {
        lemma_accepted_piece(g, t, p);
        lemma_placing_completes_at_most_four(g, p);
    }
}

/// Puts the placement into the sorted vector unless it is there already.
fn insert_sorted(pieces: &mut Vec<Piece>, piece: Piece)
    requires
        strictly_sorted(old(pieces)@),
    ensures
        strictly_sorted(final(pieces)@),
        forall|p: Piece| #[trigger]
            final(pieces)@.contains(p) <==> old(pieces)@.contains(p) || p == piece,
{
    let mut idx: usize = 0;
    while idx < pieces.len() && pieces[idx].precedes(&piece)
        invariant
            pieces@ == old(pieces)@,
            idx <= pieces@.len(),
            forall|k: int| 0 <= k < idx ==> (#[trigger] pieces@[k]).key_lt(piece),
        decreases pieces@.len() - idx,
    {
        idx += 1;
    }
    let ghost s = pieces@;
    if idx < pieces.len() && pieces[idx].same_as(&piece) {
        return ;
    }
    pieces.insert(idx, piece);
    proof {
        let r = pieces@;
        assert forall|p: Piece| #[trigger] r.contains(p) <==> s.contains(p) || p == piece by {
            if s.contains(p) {
                let k = choose|k: int| 0 <= k < s.len() && s[k] == p;
                if k < idx {
                    assert(r[k] == p);
                } else {
                    assert(r[k + 1] == p);
                }
            }
            if p == piece {
                assert(r[idx as int] == p);
            }
        }
    }
}

impl Board {
    /// The accepted placements of a piece of the given type, each once,
    /// in the order of placements.
    pub fn fitting_pieces(&self, piece_type: PieceType) -> (pieces: Vec<Piece>)
        requires
            self.wf(),
        ensures
            pieces@ == fitting(self@.grid, piece_type),
            lists_accepted(self@.grid, piece_type, pieces@),
            pieces@.no_duplicates(),
    {
        let mut fittable: Vec<Piece> = Vec::new();
        let ghost g = self@.grid;
        let ghost t = piece_type;

        let rest = self.find_rest_positions();
        let grids = piece_type.grids();
        proof {
            lemma_rest_positions_on_board(g);
        }

        for gi in 0..4
            invariant
                self.wf(),
                g == self@.grid,
                t == piece_type,
                grids@ == t.table(),
                positions(rest@) == rest_positions(g),
                forall|k: int|
                    0 <= k < rest_positions(g).len() ==> 0 <= (#[trigger] rest_positions(g)[k]).0
                        < 20 && 0 <= rest_positions(g)[k].1 < 10,
                lists_seen(g, t, fittable@, gi as int, 0, 0),
        {
            let piece = Piece { type_: piece_type, grid: grids[gi], pos: (0, 0) };
            proof {
                lemma_table_masks_have_four_cells(t, gi as int);
                piece.lemma_cells();
            }
            let cells = piece.cell_positions();

            for ci in 0..4
                invariant
                    self.wf(),
                    g == self@.grid,
                    t == piece_type,
                    gi < 4,
                    piece == (Piece { type_: t, grid: t.table()[gi as int], pos: (0, 0) }),
                    piece.has_four_cells(),
                    cells@.len() == 4,
                    forall|k: int|
                        0 <= k < 4 ==> ((#[trigger] cells@[k]).0 as int, cells@[k].1 as int)
                            == piece.cells()[k],
                    forall|k: int|
                        0 <= k < 4 ==> 0 <= (#[trigger] piece.cells()[k]).0 <= 3 && 0
                            <= piece.cells()[k].1 <= 3,
                    positions(rest@) == rest_positions(g),
                    forall|k: int|
                        0 <= k < rest_positions(g).len() ==> 0 <= (#[trigger] rest_positions(
                            g,
                        )[k]).0 < 20 && 0 <= rest_positions(g)[k].1 < 10,
                    lists_seen(g, t, fittable@, gi as int, ci as int, 0),
            {
                let cell_pos = cells[ci];

                for ri in 0..rest.len()
                    invariant
                        self.wf(),
                        g == self@.grid,
                        t == piece_type,
                        gi < 4,
                        ci < 4,
                        piece == (Piece { type_: t, grid: t.table()[gi as int], pos: (0, 0) }),
                        (cell_pos.0 as int, cell_pos.1 as int) == piece.cells()[ci as int],
                        0 <= cell_pos.0 <= 3,
                        0 <= cell_pos.1 <= 3,
                        positions(rest@) == rest_positions(g),
                        forall|k: int|
                            0 <= k < rest_positions(g).len() ==> 0 <= (#[trigger] rest_positions(
                                g,
                            )[k]).0 < 20 && 0 <= rest_positions(g)[k].1 < 10,
                        lists_seen(g, t, fittable@, gi as int, ci as int, ri as int),
                {
                    let rest_pos = rest[ri];
                    let mut new_piece = piece.clone();
                    new_piece.pos = (rest_pos.0 - cell_pos.0, rest_pos.1 - cell_pos.1);
                    assert(new_piece == anchored(
                        t,
                        gi as int,
                        ci as int,
                        rest_positions(g)[ri as int],
                    ));
                    assert(arises_from(g, t, new_piece, gi as int, ci as int, ri as int));

                    let fits = self.can_fit_piece(&new_piece);
                    if fits {
                        insert_sorted(&mut fittable, new_piece);
                    }
                    assert forall|p: Piece| #[trigger]
                        fittable@.contains(p) <==> seen(g, t, p, gi as int, ci as int, ri + 1)
                            && can_fit(g, p) by {}
                }
            }
        }
        proof {
            lemma_fitting_is(g, t, fittable@);
            lemma_sorted_no_repeat(fittable@);
        }
        fittable
    }

    /// The boards that placing a piece of the given type can lead to: one
    /// for each accepted placement, in the order of placements, each with
    /// its full rows cleared and scored.
    pub fn find_choices(&self, piece_type: PieceType) -> (res: Vec<Board>)
        requires
            self.wf(),
            self@.counters_fit(),
            clears_at_most_four(self@.grid, piece_type),
        ensures
            lists_accepted(self@.grid, piece_type, fitting(self@.grid, piece_type)),
            fitting(self@.grid, piece_type).no_duplicates(),
            res@.len() == fitting(self@.grid, piece_type).len(),
            forall|k: int|
                0 <= k < res@.len() ==> (#[trigger] res@[k]).wf() && res@[k]@ == after_placing(
                    self@,
                    fitting(self@.grid, piece_type)[k],
                ) && full_row_count(res@[k]@.grid) == 0,
    {
        let fittable_pieces = self.fitting_pieces(piece_type);
        let ghost g = self@.grid;

        let mut res: Vec<Board> = Vec::new();

        for n in 0..fittable_pieces.len()
            invariant
                self.wf(),
                self@.counters_fit(),
                g == self@.grid,
                clears_at_most_four(g, piece_type),
                fittable_pieces@ == fitting(g, piece_type),
                lists_accepted(g, piece_type, fittable_pieces@),
                res@.len() == n,
                forall|k: int|
                    0 <= k < n ==> (#[trigger] res@[k]).wf() && res@[k]@ == after_placing(
                        self@,
                        fittable_pieces@[k],
                    ) && full_row_count(res@[k]@.grid) == 0,
        {
            let piece = fittable_pieces[n];
            proof {
                assert(fittable_pieces@.contains(piece));
                lemma_accepted_piece(g, piece_type, piece);
            }
            let mut board = self.clone();
            board.insert_piece_unchecked(&piece);
            proof {
                lemma_clears_idempotent(board@);
            }
            board.remove_clears();
            res.push(board);
        }
        res
    }
}




} // verus!
