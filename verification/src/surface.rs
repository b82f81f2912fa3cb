//! The shape of the stack: column heights, overhangs, holes, and how far
//! the board is from clearing four rows with one vertical piece.

use crate::board::Board;
use crate::grid::{
    by_columns, column, column_height, in_column, is_overhang, lemma_by_columns,
    lemma_by_columns_len,
    lemma_column_top, lemma_filter_no_duplicates, lemma_overhang_rows, overhang_rows, positions,
    row_full,
    row_numbers, signed_cell, well_formed, Grid,
};
use vstd::prelude::*;

verus! {

/// The height of the stack in column `j`.
pub open spec fn height_at(g: Grid, j: int) -> int {
    column_height(column(g, j))
}

/// The test that gives the overhang rows of each column of a grid.
pub open spec fn overhang_rows_of(g: Grid) -> spec_fn(int) -> Seq<int> {
    |j: int| overhang_rows(column(g, j))
}

/// The overhangs of the board: the empty cells with an occupied cell
/// directly above, column by column from the left and from the top down
/// within a column.
pub open spec fn overhang_cells(g: Grid) -> Seq<(int, int)> {
    by_columns(overhang_rows_of(g), 10)
}

/// The empty cell at `(i, j)` cannot be entered from the side by one
/// column step: both neighbours are closed, or one is closed and the cell
/// diagonally above on the other side is closed.
pub open spec fn closed_in(g: Grid, i: int, j: int) -> bool {
    let left = signed_cell(g, i, j - 1);
    let right = signed_cell(g, i, j + 1);
    (left && right) || (left && signed_cell(g, i - 1, j + 1)) || (right && signed_cell(
        g,
        i - 1,
        j - 1,
    ))
}

/// The test that makes an overhang of column `j` a hole.
pub open spec fn closed_in_column(g: Grid, j: int) -> spec_fn(int) -> bool {
    |i: int| closed_in(g, i, j)
}

/// The rows of the holes of column `j`: its overhangs that are closed in.
pub open spec fn hole_rows(g: Grid, j: int) -> Seq<int> {
    overhang_rows(column(g, j)).filter(closed_in_column(g, j))
}

/// The test that gives the hole rows of each column of a grid.
pub open spec fn hole_rows_of(g: Grid) -> spec_fn(int) -> Seq<int> {
    |j: int| hole_rows(g, j)
}

/// The holes of the board, column by column from the left and from the
/// top down within a column.
pub open spec fn hole_cells(g: Grid) -> Seq<(int, int)> {
    by_columns(hole_rows_of(g), 10)
}

/// Column `j` is lower than every other column.
pub open spec fn strictly_lowest(g: Grid, j: int) -> bool {
    &&& 0 <= j < 10
    &&& forall|k: int| 0 <= k < 10 && k != j ==> #[trigger] height_at(g, k) > height_at(g, j)
}

/// Every cell of the row but the one in column `j` is occupied.
pub open spec fn full_but_for(r: Seq<bool>, j: int) -> bool {
    forall|c: int| 0 <= c < r.len() && c != j ==> r[c]
}

/// How many rows in a row, from row `i` upwards and at most `budget`,
/// are full but for column `j`.
pub open spec fn fill_depth(g: Grid, j: int, i: int, budget: int) -> int
    decreases budget,
{
    if budget <= 0 || i < 0 || !full_but_for(g[i], j) {
        0
    } else {
        1 + fill_depth(g, j, i - 1, budget - 1)
    }
}

/// The readiness of the board for a four-row clear: nothing if no column
/// is lower than all others; else that column and the number of rows, at
/// most four, that filling its next cells one by one would complete
/// without a gap.
pub open spec fn readiness(g: Grid) -> Option<(int, int)> {
    if exists|j: int| strictly_lowest(g, j) {
        let j = choose|j: int| strictly_lowest(g, j);
        Some((fill_depth(g, j, 19 - height_at(g, j), 4), j))
    } else {
        None
    }
}

/// The cell at `(i, j)` is empty, with an occupied cell directly above
/// and a closed cell on either side.
pub open spec fn enclosed(g: Grid, i: int, j: int) -> bool {
    &&& 1 <= i < 20
    &&& 0 <= j < 10
    &&& !g[i][j]
    &&& g[i - 1][j]
    &&& signed_cell(g, i, j - 1)
    &&& signed_cell(g, i, j + 1)
}

/// The list of overhangs holds each overhang of the board once and
/// nothing else.
pub proof fn lemma_overhangs_listed_once(g: Grid)
    requires
        well_formed(g),
    ensures
        overhang_cells(g).no_duplicates(),
        forall|i: int, j: int| #[trigger]
            overhang_cells(g).contains((i, j)) <==> 0 <= j < 10 && is_overhang(column(g, j), i),
{
    let rows_of = overhang_rows_of(g);
    assert forall|j: int| 0 <= j < 10 implies (#[trigger] rows_of(j)).no_duplicates() by {
        lemma_overhang_rows(column(g, j));
    }
    lemma_by_columns(rows_of, 10);
    let s = overhang_cells(g);
    assert forall|i: int, j: int| #[trigger]
        s.contains((i, j)) <==> 0 <= j < 10 && is_overhang(column(g, j), i) by {
        lemma_overhang_rows(column(g, j));
    }
}

/// The list of holes holds each closed-in overhang of the board once and
/// nothing else.
pub proof fn lemma_holes_listed_once(g: Grid)
    requires
        well_formed(g),
    ensures
        hole_cells(g).no_duplicates(),
        forall|i: int, j: int| #[trigger]
            hole_cells(g).contains((i, j)) <==> 0 <= j < 10 && is_overhang(column(g, j), i)
                && closed_in(g, i, j),
{
    let rows_of = hole_rows_of(g);
    assert forall|j: int| 0 <= j < 10 implies (#[trigger] rows_of(j)).no_duplicates() by {
        lemma_overhang_rows(column(g, j));
        lemma_filter_no_duplicates(overhang_rows(column(g, j)), closed_in_column(g, j));
    }
    lemma_by_columns(rows_of, 10);
    let s = hole_cells(g);
    assert forall|i: int, j: int| #[trigger]
        s.contains((i, j)) <==> 0 <= j < 10 && is_overhang(column(g, j), i) && closed_in(
            g,
            i,
            j,
        ) by {
        let ov = overhang_rows(column(g, j));
        let q = closed_in_column(g, j);
        lemma_overhang_rows(column(g, j));
        if s.contains((i, j)) {
            ov.lemma_filter_contains_rev(q, i);
        }
        if 0 <= j < 10 && is_overhang(column(g, j), i) && closed_in(g, i, j) {
            assert(ov.contains(i));
        }
    }
}

/// An enclosed cell is counted once among the overhangs and once among
/// the holes.
pub proof fn lemma_enclosed_cell_counted_once(g: Grid, i: int, j: int)
    requires
        well_formed(g),
        enclosed(g, i, j),
    ensures
        overhang_cells(g).to_multiset().count((i, j)) == 1,
        hole_cells(g).to_multiset().count((i, j)) == 1,
{
    lemma_overhangs_listed_once(g);
    lemma_holes_listed_once(g);
    overhang_cells(g).lemma_multiset_has_no_duplicates();
    hole_cells(g).lemma_multiset_has_no_duplicates();
    vstd::seq_lib::to_multiset_contains(overhang_cells(g), (i, j));
    vstd::seq_lib::to_multiset_contains(hole_cells(g), (i, j));
}

/// The readiness of a grid, if any, names a column of the board and a
/// depth of at most four.
pub proof fn lemma_readiness(g: Grid)
    ensures
        readiness(g) matches Some((depth, j)) ==> 0 <= j < 10 && 0 <= depth <= 4 && strictly_lowest(
            g,
            j,
        ),
{
    if let Some((depth, j)) = readiness(g) {
        lemma_fill_depth(g, j, 19 - height_at(g, j), 4);
    }
}

/// The depth of a fill is between zero and its budget.
proof fn lemma_fill_depth(g: Grid, j: int, i: int, budget: int)
    requires
        0 <= budget,
    ensures
        0 <= fill_depth(g, j, i, budget) <= budget,
    decreases budget,
{
    if budget > 0 && i >= 0 && full_but_for(g[i], j) {
        lemma_fill_depth(g, j, i - 1, budget - 1);
    }
}

/// A board has at most 200 overhangs and at most 200 holes.
pub proof fn lemma_cell_lists_are_short(g: Grid)
    ensures
        hole_cells(g).len() <= 200,
        overhang_cells(g).len() <= 200,
{
    let ov = overhang_rows_of(g);
    let ho = hole_rows_of(g);
    assert forall|j: int| 0 <= j < 10 implies (#[trigger] ov(j)).len() <= 20 by {
        lemma_overhang_rows(column(g, j));
    }
    assert forall|j: int| 0 <= j < 10 implies (#[trigger] ho(j)).len() <= 20 by {
        lemma_overhang_rows(column(g, j));
        overhang_rows(column(g, j)).lemma_filter_len(closed_in_column(g, j));
    }
    lemma_by_columns_len(ov, 10, 20);
    lemma_by_columns_len(ho, 10, 20);
}

/// How a filtered sequence grows with one more element.
proof fn lemma_filter_step(s: Seq<int>, m: int, q: spec_fn(int) -> bool)
    requires
        0 <= m < s.len(),
    ensures
        s.take(m + 1).filter(q) == if q(s[m]) {
            s.take(m).filter(q).push(s[m])
        } else {
            s.take(m).filter(q)
        },
{
    reveal(Seq::filter);
    let t = s.take(m + 1);
    assert(t.drop_last() =~= s.take(m));
}

impl Board {
    /// The height of the stack in each column.
    pub fn heights(&self) -> (h: [usize; 10])
        requires
            self.wf(),
        ensures
            forall|j: int| 0 <= j < 10 ==> #[trigger] h@[j] == height_at(self@.grid, j),
    {
        let mut h: [usize; 10] = [0;10];
        for j in 0..10
            invariant
                self.wf(),
                forall|k: int| 0 <= k < j ==> #[trigger] h@[k] == height_at(self@.grid, k),
        {
            h[j] = self.col(j).height();
        }
        h
    }

    /// The overhangs of the board: the empty cells with an occupied cell
    /// directly above.
    pub fn overhangs(&self) -> (res: Vec<(isize, isize)>)
        requires
            self.wf(),
        ensures
            positions(res@) == overhang_cells(self@.grid),
    {
        let mut res: Vec<(isize, isize)> = Vec::new();

        for j in 0..10
            invariant
                self.wf(),
                positions(res@) == by_columns(overhang_rows_of(self@.grid), j as int),
        {
            let rows = self.col(j).overhangs();
            let ghost before = res@;
            for n in 0..rows.len()
                invariant
                    j < 10,
                    positions(res@) == positions(before) + in_column(
                        row_numbers(rows@).take(n as int),
                        j as int,
                    ),
            {
                let ghost prev = res@;
                res.push((rows[n], j as isize));
                assert(positions(res@) =~= positions(prev).push(
                    (rows@[n as int] as int, j as int),
                ));
            }
        }
        res
    }

    /// The holes of the board: the overhangs that one column step from
    /// the side cannot reach.
    pub fn holes(&self) -> (res: Vec<(isize, isize)>)
        requires
            self.wf(),
        ensures
            positions(res@) == hole_cells(self@.grid),
    {
        let mut res: Vec<(isize, isize)> = Vec::new();
        let ghost g = self@.grid;

        for j in 0..10isize
            invariant
                self.wf(),
                g == self@.grid,
                positions(res@) == by_columns(hole_rows_of(g), j as int),
        {
            let rows = self.col(j as usize).overhangs();
            let ghost before = res@;
            let ghost ov = overhang_rows(column(g, j as int));
            let ghost q = closed_in_column(g, j as int);
            proof {
                lemma_overhang_rows(column(g, j as int));
            }
            for n in 0..rows.len()
                invariant
                    self.wf(),
                    g == self@.grid,
                    0 <= j < 10,
                    ov == overhang_rows(column(g, j as int)),
                    ov == row_numbers(rows@),
                    q == closed_in_column(g, j as int),
                    forall|m: int| 0 <= m < ov.len() ==> 1 <= #[trigger] ov[m] < 20,
                    positions(res@) == positions(before) + in_column(
                        ov.take(n as int).filter(q),
                        j as int,
                    ),
            {
                let i = rows[n];
                let ghost prev = res@;
                proof {
                    lemma_filter_step(ov, n as int, q);
                }
                let left_closed = self.get_signed(i, j - 1);
                let right_closed = self.get_signed(i, j + 1);

                if left_closed && right_closed {
                    res.push((i, j));
                } else if left_closed && self.get_signed(i - 1, j + 1) {
                    res.push((i, j));
                } else if right_closed && self.get_signed(i - 1, j - 1) {
                    res.push((i, j));
                }
                proof {
                    if q(i as int) {
                        assert(positions(res@) =~= positions(prev).push((i as int, j as int)));
                    }
                }
            }
            assert(ov.take(rows@.len() as int) =~= ov);
        }
        res
    }

    /// The readiness of the board for a four-row clear, as (depth,
    /// column): nothing if no column is lower than all others; else that
    /// column and the number of rows, at most four, that filling its next
    /// cells one by one would complete without a gap.
    pub fn tetris_readiness(&self) -> (res: Option<(usize, usize)>)
        requires
            self.wf(),
        ensures
            match res {
                Some((depth, j)) => readiness(self@.grid) == Some((depth as int, j as int))
                    && depth <= 4 && j < 10,
                None => readiness(self@.grid).is_none(),
            },
    {
        let heights = self.heights();
        let ghost g = self@.grid;

        let mut lowest_height: usize = 21;
        let mut lowest_height_dups: usize = 0;
        let mut lowest_j: usize = 0;

        proof {
            assert forall|k: int| 0 <= k < 10 implies 0 <= #[trigger] height_at(g, k) <= 20 by {
                lemma_column_top(column(g, k));
            }
        }

        for j in 0..10
            invariant
                forall|k: int| 0 <= k < 10 ==> #[trigger] heights@[k] == height_at(g, k),
                forall|k: int| 0 <= k < 10 ==> 0 <= #[trigger] height_at(g, k) <= 20,
                j == 0 ==> lowest_height == 21 && lowest_height_dups == 0,
                j > 0 ==> lowest_j < j && lowest_height == height_at(g, lowest_j as int),
                forall|k: int| 0 <= k < j ==> #[trigger] height_at(g, k) >= lowest_height,
                lowest_height_dups <= j,
                lowest_height_dups == 0 ==> forall|k: int|
                    0 <= k < j && k != lowest_j ==> #[trigger] height_at(g, k) > lowest_height,
                lowest_height_dups > 0 ==> exists|k: int|
                    0 <= k < j && k != lowest_j && #[trigger] height_at(g, k) == lowest_height,
        {
            let h = heights[j];
            if h <= lowest_height {
                if h == lowest_height {
                    lowest_height_dups += 1;
                } else {
                    lowest_height = h;
                    lowest_j = j;
                    lowest_height_dups = 0;
                }
            }
        }

        if lowest_height_dups > 0 {
            return None;
        }
        let j = lowest_j;
        proof {
            assert(strictly_lowest(g, j as int));
            lemma_column_top(column(g, j as int));
            assert forall|r: int|
                0 <= r < 20 - lowest_height implies !#[trigger] g[r][j as int] by {
                assert(!column(g, j as int)[r]);
            }
        }

        let mut alt_board = self.clone();
        let mut clears: usize = 0;
        let mut going = true;

        while going && clears < 4 && lowest_height + clears <= 19
            invariant
                alt_board.wf(),
                well_formed(g),
                j < 10,
                lowest_height == height_at(g, j as int),
                lowest_height <= 20,
                clears <= 4,
                forall|r: int| 0 <= r < 20 - lowest_height ==> !#[trigger] g[r][j as int],
                going ==> forall|r: int, c: int|
                    0 <= r < 20 && 0 <= c < 10 ==> #[trigger] alt_board@.grid[r][c] == (g[r][c]
                        || (c == j && 19 - lowest_height - clears < r <= 19 - lowest_height)),
                fill_depth(g, j as int, 19 - lowest_height, 4) == clears + if going {
                    fill_depth(g, j as int, 19 - lowest_height - clears, 4 - clears)
                } else {
                    0
                },
            decreases
                    if going {
                        5 - clears
                    } else {
                        0
                    },
        {
            let i = 19 - lowest_height - clears;
            alt_board.flip(i, j);

            let full = alt_board.row(i).full();
            proof {
                let r = alt_board@.grid[i as int];
                if row_full(r) {
                    assert forall|c: int|
                        0 <= c < g[i as int].len() && c != j implies g[i as int][c] by {
                        assert(r[c]);
                    }
                }
            }
            if full {
                clears += 1;
            } else {
                going = false;
            }
        }

        let depth = clears;

        Some((depth, j))
    }
}

} // verus!
