//! The board: twenty rows and ten columns of cells, kept twice, once by
//! rows and once by columns, together with the counters of a game.
//!
//! Every mutation goes through `set`, `flip` or `remove_row`, each of which
//! updates both representations, so that a cell is occupied in its row
//! exactly when it is occupied in its column.

use crate::col::BoardCol;
use crate::grid::{
    clear_points, empty_grid, empty_row, full_row_count, kept_rows, lemma_cleared_grid,
    lemma_kept_rows_step, signed_cell, well_formed, with_cell, with_cell_flipped,
    without_full_rows, without_row, Grid,
};
use crate::row::BoardRow;
use vstd::prelude::*;

verus! {

/// The mathematical content of a board.
pub struct BoardView {
    /// The cells, by rows from the top.
    pub grid: Grid,
    /// Rows cleared so far.
    pub lines_cleared: nat,
    /// The number of cleared rows at which the game ends.
    pub lines_cleared_max: nat,
    /// Whether the game has ended.
    pub finished: bool,
    /// Points scored so far.
    pub score: nat,
    /// How many times four rows were cleared at once.
    pub tetrises: nat,
}

impl BoardView {
    /// The grid has twenty rows of ten cells.
    pub open spec fn wf(self) -> bool {
        well_formed(self.grid)
    }

    /// The same counters around another grid.
    pub open spec fn with_grid(self, g: Grid) -> BoardView {
        BoardView { grid: g, ..self }
    }

    /// A fresh board around a grid: nothing cleared, nothing scored.
    pub open spec fn fresh(g: Grid, max: nat) -> BoardView {
        BoardView {
            grid: g,
            lines_cleared: 0,
            lines_cleared_max: max,
            finished: false,
            score: 0,
            tetrises: 0,
        }
    }

    /// The counters can take one more clearing pass without leaving the
    /// range of `usize`.
    pub open spec fn counters_fit(self) -> bool {
        &&& self.lines_cleared + 4 <= usize::MAX
        &&& self.score + 1200 <= usize::MAX
        &&& self.tetrises + 1 <= usize::MAX
    }

    /// The board after one clearing pass: every full row is removed, the
    /// pass is scored by the number of rows it removed, and the game ends
    /// once the cleared rows reach the maximum.
    pub open spec fn after_clears(self) -> BoardView {
        let n = full_row_count(self.grid);
        let lines = (self.lines_cleared + n) as nat;
        BoardView {
            grid: without_full_rows(self.grid),
            lines_cleared: lines,
            lines_cleared_max: self.lines_cleared_max,
            finished: self.finished || lines >= self.lines_cleared_max,
            score: (self.score + clear_points(n)) as nat,
            tetrises: if n == 4 {
                self.tetrises + 1
            } else {
                self.tetrises
            },
        }
    }
}

/// A board: its cells by rows and by columns, and the counters of a game.
pub struct Board {
    pub(crate) rows: [BoardRow; 20],
    pub(crate) cols: [BoardCol; 10],
    pub(crate) lines_cleared: usize,
    pub(crate) lines_cleared_max: usize,
    pub(crate) finished: bool,
    pub(crate) score: usize,
    pub(crate) tetrises: usize,
}

impl View for Board {
    type V = BoardView;

    /// The grid as the rows hold it, and the counters.
    closed spec fn view(&self) -> BoardView {
        BoardView {
            grid: Seq::new(20, |i: int| self.rows@[i]@),
            lines_cleared: self.lines_cleared as nat,
            lines_cleared_max: self.lines_cleared_max as nat,
            finished: self.finished,
            score: self.score as nat,
            tetrises: self.tetrises as nat,
        }
    }
}

impl Clone for Board {
    /// A copy of the board.
    fn clone(&self) -> (b: Board)
        ensures
            b == *self,
    {
        Board {
            rows: self.rows,
            cols: self.cols,
            lines_cleared: self.lines_cleared,
            lines_cleared_max: self.lines_cleared_max,
            finished: self.finished,
            score: self.score,
            tetrises: self.tetrises,
        }
    }
}

/// The grid that a compact string describes: cell `(i, j)` is occupied
/// exactly when the string has a `1` at place `10 * i + j`.
pub open spec fn grid_of_compact(s: Seq<char>) -> Grid {
    Seq::new(20, |i: int| Seq::new(10, |j: int| 10 * i + j < s.len() && s[10 * i + j] == '1'))
}

/// The compact string of a grid: its 200 cells by rows from the top, `1`
/// for an occupied cell and `0` for an empty one.
pub open spec fn compact_of(g: Grid) -> Seq<char> {
    Seq::new(
        200,
        |x: int|
            if g[x / 10][x % 10] {
                '1'
            } else {
                '0'
            },
    )
}

/// The board read back from its own compact string has the same grid; it
/// is the same board if the counters of the board are fresh, for the string
/// carries no counters.
pub proof fn lemma_compact_round_trip(b: BoardView)
    requires
        b.wf(),
    ensures
        compact_of(b.grid).len() == 200,
        grid_of_compact(compact_of(b.grid)) == b.grid,
        b == BoardView::fresh(b.grid, 130) ==> BoardView::fresh(
            grid_of_compact(compact_of(b.grid)),
            130,
        ) == b,
{
    assert(grid_of_compact(compact_of(b.grid)) =~~= b.grid);
}

/// A second clearing pass changes nothing: the first leaves no full row,
/// scores nothing more and ends the game no later.
pub proof fn lemma_clears_idempotent(b: BoardView)
    requires
        b.wf(),
    ensures
        b.after_clears().wf(),
        full_row_count(b.after_clears().grid) == 0,
        b.after_clears().after_clears() == b.after_clears(),
{
    lemma_cleared_grid(b.grid);
}

/// How a clearing pass scores: 40, 100, 300 and 1200 points for one, two,
/// three and four rows, and one more tetris for four rows only.
pub proof fn lemma_clear_scoring(b: BoardView)
    requires
        b.wf(),
    ensures
        ({
            let n = full_row_count(b.grid);
            let a = b.after_clears();
            &&& a.lines_cleared == b.lines_cleared + n
            &&& n == 0 ==> a.score == b.score && a.tetrises == b.tetrises
            &&& n == 1 ==> a.score == b.score + 40 && a.tetrises == b.tetrises
            &&& n == 2 ==> a.score == b.score + 100 && a.tetrises == b.tetrises
            &&& n == 3 ==> a.score == b.score + 300 && a.tetrises == b.tetrises
            &&& n == 4 ==> a.score == b.score + 1200 && a.tetrises == b.tetrises + 1
        }),
{
}

/// The rows above `i` that are not full, below as many empty rows as there
/// are full rows above `i`, followed by the rows from `i` on.
spec fn cleared_above(g: Grid, i: int) -> Grid {
    Seq::new((i - kept_rows(g.take(i)).len()) as nat, |k: int| empty_row()) + kept_rows(g.take(i))
        + g.skip(i)
}

impl Board {
    /// The two representations agree, and each row and column is sound.
    pub closed spec fn inv(&self) -> bool {
        &&& forall|i: int| 0 <= i < 20 ==> (#[trigger] self.rows@[i]).wf()
        &&& forall|j: int| 0 <= j < 10 ==> (#[trigger] self.cols@[j]).wf()
        &&& forall|i: int, j: int|
            0 <= i < 20 && 0 <= j < 10 ==> self.rows@[i]@[j] == self.cols@[j]@[i]
    }

    /// The representation is sound and the grid has its shape.
    pub open spec fn wf(&self) -> bool {
        self.inv() && self@.wf()
    }

    /// An empty board that ends after 130 cleared rows.
    pub fn new() -> (b: Board)
        ensures
            b.wf(),
            b@ == BoardView::fresh(empty_grid(), 130),
    {
        Self::with_lines_cleared_max(130)
    }

    /// An empty board that ends after `lines_cleared_max` cleared rows.
    pub fn with_lines_cleared_max(lines_cleared_max: usize) -> (b: Board)
        ensures
            b.wf(),
            b@ == BoardView::fresh(empty_grid(), lines_cleared_max as nat),
    {
        let b = Board {
            rows: [BoardRow::default();20],
            cols: [BoardCol::default();10],
            lines_cleared: 0,
            lines_cleared_max,
            finished: false,
            score: 0,
            tetrises: 0,
        };
        assert(b@.grid =~~= empty_grid());
        b
    }

    /// The board that a compact string describes, with fresh counters.
    pub fn from_compact(s: &str) -> (b: Board)
        requires
            forall|x: int| 200 <= x < s@.len() ==> s@[x] != '1',
        ensures
            b.wf(),
            b@ == BoardView::fresh(grid_of_compact(s@), 130),
    {
        let mut board = Self::new();
        let n = s.unicode_len();
        assert(empty_grid() =~~= grid_of_compact(s@.take(0)));
        for x in 0..n
            invariant
                n == s@.len(),
                forall|x: int| 200 <= x < s@.len() ==> s@[x] != '1',
                board.wf(),
                board@ == BoardView::fresh(grid_of_compact(s@.take(x as int)), 130),
        {
            let c = s.get_char(x);
            if c == '1' {
                board.flip(x / 10, x % 10);
            }
            assert(board@.grid =~~= grid_of_compact(s@.take(x + 1)));
        }
        assert(s@.take(n as int) =~= s@);
        board
    }

    /// Removes every full row and scores the pass.
    pub fn remove_clears(&mut self)
        requires
            old(self).wf(),
            full_row_count(old(self)@.grid) <= 4,
            old(self)@.counters_fit(),
        ensures
            final(self).wf(),
            final(self)@ == old(self)@.after_clears(),
    {
        let mut lines_cleared: usize = 0;
        let ghost g = self@.grid;
        assert(self@.grid =~= cleared_above(g, 0));

        for i in 0..20
            invariant
                self.wf(),
                well_formed(g),
                self@ == old(self)@.with_grid(cleared_above(g, i as int)),
                lines_cleared == i - kept_rows(g.take(i as int)).len(),
                lines_cleared <= i,
        {
            proof {
                lemma_kept_rows_step(g, i as int);
            }
            if self.row(i).full() {
                self.remove_row(i);
                lines_cleared += 1;
            }
            assert(self@.grid =~= cleared_above(g, i + 1));
        }

        if lines_cleared == 1 {
            self.score += 40;
        } else if lines_cleared == 2 {
            self.score += 100;
        } else if lines_cleared == 3 {
            self.score += 300;
        } else if lines_cleared == 4 {
            self.tetrises += 1;
            self.score += 1200;
        }
        self.lines_cleared += lines_cleared;

        if self.lines_cleared >= self.lines_cleared_max {
            self.finished = true;
        }
    }

    /// Removes row `i`: the rows above it move down by one and an empty
    /// row enters at the top.
    pub fn remove_row(&mut self, i: usize)
        requires
            old(self).wf(),
            i < 20,
        ensures
            final(self).wf(),
            final(self)@ == old(self)@.with_grid(without_row(old(self)@.grid, i as int)),
    {
        let mut j: usize = i;
        while j >= 1
            invariant
                j <= i < 20,
                old(self).wf(),
                self.cols == old(self).cols,
                self.lines_cleared == old(self).lines_cleared,
                self.lines_cleared_max == old(self).lines_cleared_max,
                self.finished == old(self).finished,
                self.score == old(self).score,
                self.tetrises == old(self).tetrises,
                forall|r: int| 0 <= r <= j ==> self.rows@[r] == old(self).rows@[r],
                forall|r: int| j < r <= i ==> self.rows@[r] == old(self).rows@[r - 1],
                forall|r: int| i < r < 20 ==> self.rows@[r] == old(self).rows@[r],
            decreases j,
        {
            self.rows[j] = self.rows[j - 1];
            j -= 1;
        }

        self.rows[0] = BoardRow::default();

        for c in 0..10
            invariant
                i < 20,
                old(self).wf(),
                self.rows@[0]@ == empty_row(),
                self.rows@[0].wf(),
                self.lines_cleared == old(self).lines_cleared,
                self.lines_cleared_max == old(self).lines_cleared_max,
                self.finished == old(self).finished,
                self.score == old(self).score,
                self.tetrises == old(self).tetrises,
                forall|r: int| 0 < r <= i ==> self.rows@[r] == old(self).rows@[r - 1],
                forall|r: int| i < r < 20 ==> self.rows@[r] == old(self).rows@[r],
                forall|k: int| c <= k < 10 ==> self.cols@[k] == old(self).cols@[k],
                forall|k: int|
                    0 <= k < c ==> (#[trigger] self.cols@[k]).wf() && self.cols@[k]@ == seq![false]
                        + old(self).cols@[k]@.remove(i as int),
        {
            let mut col = self.cols[c];
            col.remove_row(i);
            self.cols[c] = col;
        }
        assert(self@.grid =~= without_row(old(self)@.grid, i as int));
    }

    /// Row `i` of the board.
    pub fn row(&self, i: usize) -> (r: BoardRow)
        requires
            self.wf(),
            i < 20,
        ensures
            r.wf(),
            r@ == self@.grid[i as int],
    {
        self.rows[i]
    }

    /// Column `j` of the board.
    pub fn col(&self, j: usize) -> (c: BoardCol)
        requires
            self.wf(),
            j < 10,
        ensures
            c.wf(),
            c@ == crate::grid::column(self@.grid, j as int),
    {
        self.cols[j]
    }

    /// Whether the cell at row `i`, column `j` is occupied.
    pub fn get(&self, i: usize, j: usize) -> (b: bool)
        requires
            self.wf(),
            i < 20,
            j < 10,
        ensures
            b == self@.grid[i as int][j as int],
    {
        self.rows[i].get(j)
    }

    /// The cell at row `i`, column `j`, where the side walls and the floor
    /// read as occupied and the space above the board reads as empty.
    pub fn get_signed(&self, i: isize, j: isize) -> (b: bool)
        requires
            self.wf(),
        ensures
            b == signed_cell(self@.grid, i as int, j as int),
    {
        if j < 0 || j >= 10 {
            return true;
        }
        if i >= 20 {
            return true;
        }
        if i < 0 {
            return false;
        }
        self.get(i as usize, j as usize)
    }

    /// Makes the cell at row `i`, column `j` occupied or empty.
    pub fn set(&mut self, i: usize, j: usize, value: bool)
        requires
            old(self).wf(),
            i < 20,
            j < 10,
        ensures
            final(self).wf(),
            final(self)@ == old(self)@.with_grid(
                with_cell(old(self)@.grid, i as int, j as int, value),
            ),
    {
        let mut row = self.rows[i];
        let mut col = self.cols[j];
        row.set(j, value);
        col.set(i, value);
        self.rows[i] = row;
        self.cols[j] = col;
        assert(self@.grid =~= with_cell(old(self)@.grid, i as int, j as int, value));
    }

    /// Inverts the cell at row `i`, column `j`.
    pub fn flip(&mut self, i: usize, j: usize)
        requires
            old(self).wf(),
            i < 20,
            j < 10,
        ensures
            final(self).wf(),
            final(self)@ == old(self)@.with_grid(
                with_cell_flipped(old(self)@.grid, i as int, j as int),
            ),
    {
        let mut row = self.rows[i];
        let mut col = self.cols[j];
        row.flip(j);
        col.flip(i);
        self.rows[i] = row;
        self.cols[j] = col;
        assert(self@.grid =~= with_cell_flipped(old(self)@.grid, i as int, j as int));
    }

    /// The compact string of the board: its 200 cells by rows from the
    /// top, `1` for an occupied cell and `0` for an empty one.
    pub fn to_compact_string(&self) -> (res: String)
        requires
            self.wf(),
        ensures
            res@ == compact_of(self@.grid),
    {
        let mut res = String::new();
        proof {
            reveal_strlit("1");
            reveal_strlit("0");
        }

        for i in 0..20
            invariant
                self.wf(),
                "1"@ == seq!['1'],
                "0"@ == seq!['0'],
                res@ == compact_of(self@.grid).take(10 * (i as int)),
        {
            for j in 0..10
                invariant
                    self.wf(),
                    i < 20,
                    "1"@ == seq!['1'],
                    "0"@ == seq!['0'],
                    res@ == compact_of(self@.grid).take(10 * (i as int) + (j as int)),
            {
                if self.get(i, j) {
                    res.append("1");
                } else {
                    res.append("0");
                }
            }
        }
        res
    }

    /// The number of full rows.
    pub fn full_rows(&self) -> (n: usize)
        requires
            self.wf(),
        ensures
            n == full_row_count(self@.grid),
            n <= 20,
    {
        let mut n: usize = 0;
        let ghost g = self@.grid;
        for i in 0..20
            invariant
                self.wf(),
                g == self@.grid,
                n == i - kept_rows(g.take(i as int)).len(),
                n <= i,
        {
            proof {
                lemma_kept_rows_step(g, i as int);
            }
            if self.row(i).full() {
                n += 1;
            }
        }
        assert(g.take(20) =~= g);
        n
    }

    /// Whether the counters can take one more clearing pass.
    pub fn counters_fit(&self) -> (b: bool)
        ensures
            b == self@.counters_fit(),
    {
        self.lines_cleared <= usize::MAX - 4 && self.score <= usize::MAX - 1200 && self.tetrises
            <= usize::MAX - 1
    }

    /// Rows cleared so far.
    pub fn lines_cleared(&self) -> (n: usize)
        ensures
            n == self@.lines_cleared,
    {
        self.lines_cleared
    }

    /// The number of cleared rows at which the game ends.
    pub fn lines_cleared_max(&self) -> (n: usize)
        ensures
            n == self@.lines_cleared_max,
    {
        self.lines_cleared_max
    }

    /// Whether the game has ended.
    pub fn finished(&self) -> (b: bool)
        ensures
            b == self@.finished,
    {
        self.finished
    }

    /// Points scored so far.
    pub fn score(&self) -> (n: usize)
        ensures
            n == self@.score,
    {
        self.score
    }

    /// How many times four rows were cleared at once.
    pub fn tetrises(&self) -> (n: usize)
        ensures
            n == self@.tetrises,
    {
        self.tetrises
    }

    /// Ends the game on this board.
    pub fn mark_finished(&mut self)
        ensures
            final(self)@ == (BoardView { finished: true, ..old(self)@ }),
            old(self).wf() ==> final(self).wf(),
    {
        self.finished = true;
    }
}

} // verus!
