//! The mathematical model of the playing field.
//!
//! A grid is a sequence of twenty rows, top row first, each a sequence of
//! ten cells, left cell first; `true` is an occupied cell. A column of the
//! grid is the sequence of its twenty cells from the top down.

use vstd::prelude::*;

verus! {

/// The cells of a board, by rows from the top.
pub type Grid = Seq<Seq<bool>>;

/// Twenty rows of ten cells.
pub open spec fn well_formed(g: Grid) -> bool {
    &&& g.len() == 20
    &&& forall|i: int| 0 <= i < 20 ==> (#[trigger] g[i]).len() == 10
}

/// A row of ten empty cells.
pub open spec fn empty_row() -> Seq<bool> {
    Seq::new(10, |j: int| false)
}

/// Twenty empty rows.
pub open spec fn empty_grid() -> Grid {
    Seq::new(20, |i: int| empty_row())
}

/// Every cell of the row is occupied.
pub open spec fn row_full(r: Seq<bool>) -> bool {
    forall|j: int| 0 <= j < r.len() ==> r[j]
}

/// The cell at row `i`, column `j`, where the side walls and the floor read
/// as occupied and the space above the board reads as empty.
pub open spec fn signed_cell(g: Grid, i: int, j: int) -> bool {
    if j < 0 || j >= 10 {
        true
    } else if i >= 20 {
        true
    } else if i < 0 {
        false
    } else {
        g[i][j]
    }
}

/// Column `j` of the grid, from the top down.
pub open spec fn column(g: Grid, j: int) -> Seq<bool> {
    Seq::new(20, |i: int| g[i][j])
}

/// The grid with the cell at `(i, j)` set to `v`.
pub open spec fn with_cell(g: Grid, i: int, j: int, v: bool) -> Grid {
    g.update(i, g[i].update(j, v))
}

/// The grid with the cell at `(i, j)` inverted.
pub open spec fn with_cell_flipped(g: Grid, i: int, j: int) -> Grid {
    with_cell(g, i, j, !g[i][j])
}

/// The grid without row `i`: the rows above it move down by one and an
/// empty row enters at the top.
pub open spec fn without_row(g: Grid, i: int) -> Grid {
    seq![empty_row()] + g.remove(i)
}

/// The test for a row that a clearing pass keeps.
pub open spec fn not_full() -> spec_fn(Seq<bool>) -> bool {
    |r: Seq<bool>| !row_full(r)
}

/// The rows that are not full, in order.
pub open spec fn kept_rows(g: Grid) -> Grid {
    g.filter(not_full())
}

/// The number of full rows.
pub open spec fn full_row_count(g: Grid) -> int {
    g.len() - kept_rows(g).len()
}

/// The grid after every full row has been removed: the rows that are not
/// full, in order, below as many empty rows as there were full ones.
pub open spec fn without_full_rows(g: Grid) -> Grid {
    Seq::new(full_row_count(g) as nat, |i: int| empty_row()) + kept_rows(g)
}

/// Points scored for clearing `n` rows with one piece.
pub open spec fn clear_points(n: int) -> int {
    if n == 1 {
        40
    } else if n == 2 {
        100
    } else if n == 3 {
        300
    } else if n == 4 {
        1200
    } else {
        0
    }
}

/// The index of the first occupied cell of `c` at or after `k`, or the
/// length of `c` if there is none.
pub open spec fn first_occupied(c: Seq<bool>, k: int) -> int
    decreases c.len() - k,
{
    if k >= c.len() {
        c.len() as int
    } else if c[k] {
        k
    } else {
        first_occupied(c, k + 1)
    }
}

/// The row of the top-most occupied cell of a column; the row below the
/// last one if the column is empty.
pub open spec fn column_top(c: Seq<bool>) -> int {
    first_occupied(c, 0)
}

/// The height of the stack in a column: the distance from its top-most
/// occupied cell to the floor.
pub open spec fn column_height(c: Seq<bool>) -> int {
    c.len() - column_top(c)
}

/// The integers in `[lo, hi)` that satisfy `pred`, in increasing order.
pub open spec fn select(lo: int, hi: int, pred: spec_fn(int) -> bool) -> Seq<int>
    decreases hi - lo,
{
    if lo >= hi {
        Seq::empty()
    } else if pred(hi - 1) {
        select(lo, hi - 1, pred).push(hi - 1)
    } else {
        select(lo, hi - 1, pred)
    }
}

/// Row `i` of a column is an overhang: empty, with an occupied cell
/// directly above it.
pub open spec fn is_overhang(c: Seq<bool>, i: int) -> bool {
    1 <= i < c.len() && !c[i] && c[i - 1]
}

/// The overhang rows of a column, from the top down.
pub open spec fn overhang_rows(c: Seq<bool>) -> Seq<int> {
    select(1, c.len() as int, |i: int| is_overhang(c, i))
}

/// Row `i` of a column is a covered resting row: below the top of the
/// stack, empty, and directly above an occupied cell or the floor.
pub open spec fn is_covered_rest(c: Seq<bool>, i: int) -> bool {
    &&& column_top(c) < i < c.len()
    &&& !c[i]
    &&& (i == c.len() - 1 || c[i + 1])
}

/// The rows of a column on which a piece can come to rest: the row above
/// the stack, unless the stack reaches the top, and then every covered
/// resting row from the top down.
pub open spec fn rest_rows(c: Seq<bool>) -> Seq<int> {
    let above = if column_top(c) == 0 {
        Seq::<int>::empty()
    } else {
        Seq::<int>::empty().push(column_top(c) - 1)
    };
    above + select(column_top(c) + 1, c.len() as int, |i: int| is_covered_rest(c, i))
}

/// A sequence of machine positions as mathematical positions.
pub open spec fn positions(s: Seq<(isize, isize)>) -> Seq<(int, int)> {
    s.map_values(|p: (isize, isize)| (p.0 as int, p.1 as int))
}

/// A sequence of machine row numbers as mathematical row numbers.
pub open spec fn row_numbers(s: Seq<isize>) -> Seq<int> {
    s.map_values(|i: isize| i as int)
}

/// The positions of the given rows in column `j`.
pub open spec fn in_column(rows: Seq<int>, j: int) -> Seq<(int, int)> {
    rows.map_values(|i: int| (i, j))
}

/// The positions of the first `n` columns, column by column from the
/// left, where `rows_of` gives the rows of each column.
pub open spec fn by_columns(rows_of: spec_fn(int) -> Seq<int>, n: int) -> Seq<(int, int)>
    decreases n,
{
    if n <= 0 {
        Seq::empty()
    } else {
        by_columns(rows_of, n - 1) + in_column(rows_of(n - 1), n - 1)
    }
}

/// The first occupied cell at or after `k` is occupied, and no cell
/// between `k` and it is.
pub proof fn lemma_first_occupied(c: Seq<bool>, k: int)
    requires
        0 <= k <= c.len(),
    ensures
        k <= first_occupied(c, k) <= c.len(),
        first_occupied(c, k) < c.len() ==> c[first_occupied(c, k)],
        forall|i: int| k <= i < first_occupied(c, k) ==> !c[i],
    decreases c.len() - k,
{
    if k < c.len() && !c[k] {
        lemma_first_occupied(c, k + 1);
    }
}

/// The top of a column is its first occupied row.
pub proof fn lemma_column_top(c: Seq<bool>)
    ensures
        0 <= column_top(c) <= c.len(),
        0 <= column_height(c) <= c.len(),
        column_top(c) < c.len() ==> c[column_top(c)],
        forall|i: int| 0 <= i < column_top(c) ==> !c[i],
{
    lemma_first_occupied(c, 0);
}

/// An occupied cell with nothing occupied between `k` and it is the first
/// occupied cell at or after `k`.
proof fn lemma_first_occupied_is(c: Seq<bool>, k: int, t: int)
    requires
        0 <= k <= t <= c.len(),
        forall|i: int| k <= i < t ==> !c[i],
        t < c.len() ==> c[t],
    ensures
        first_occupied(c, k) == t,
    decreases t - k,
{
    if k < t {
        lemma_first_occupied_is(c, k + 1, t);
    }
}

/// A row with nothing occupied above it that is itself occupied, or lies
/// below the last row, is the top of the column.
pub proof fn lemma_column_top_is(c: Seq<bool>, t: int)
    requires
        0 <= t <= c.len(),
        forall|i: int| 0 <= i < t ==> !c[i],
        t < c.len() ==> c[t],
    ensures
        column_top(c) == t,
{
    lemma_first_occupied_is(c, 0, t);
}

/// What a selection contains, and that it is strictly increasing.
pub proof fn lemma_select(lo: int, hi: int, pred: spec_fn(int) -> bool)
    ensures
        forall|x: int| #[trigger] select(lo, hi, pred).contains(x) <==> lo <= x < hi && pred(x),
        forall|a: int, b: int|
            0 <= a < b < select(lo, hi, pred).len() ==> select(lo, hi, pred)[a] < select(
                lo,
                hi,
                pred,
            )[b],
        select(lo, hi, pred).len() <= if hi > lo {
            hi - lo
        } else {
            0
        },
    decreases hi - lo,
{
    if lo < hi {
        lemma_select(lo, hi - 1, pred);
        let prev = select(lo, hi - 1, pred);
        let cur = select(lo, hi, pred);
        assert forall|x: int| #[trigger] cur.contains(x) <==> lo <= x < hi && pred(x) by {
            if pred(hi - 1) {
                if cur.contains(x) {
                    let k = choose|k: int| 0 <= k < cur.len() && cur[k] == x;
                    if k < prev.len() {
                        assert(prev.contains(x));
                    }
                }
                if lo <= x < hi && pred(x) {
                    if x == hi - 1 {
                        assert(cur[prev.len() as int] == x);
                    } else {
                        assert(prev.contains(x));
                        let k = choose|k: int| 0 <= k < prev.len() && prev[k] == x;
                        assert(cur[k] == x);
                    }
                }
            }
        }
        assert forall|a: int, b: int| 0 <= a < b < cur.len() implies cur[a] < cur[b] by {
            if pred(hi - 1) && b == prev.len() {
                assert(prev.contains(prev[a]));
            }
        }
    }
}

/// The overhang rows of a column are overhangs, each listed once, from
/// the top down.
pub proof fn lemma_overhang_rows(c: Seq<bool>)
    ensures
        forall|m: int|
            0 <= m < overhang_rows(c).len() ==> is_overhang(c, #[trigger] overhang_rows(c)[m]),
        forall|x: int| #[trigger] overhang_rows(c).contains(x) <==> is_overhang(c, x),
        forall|a: int, b: int|
            0 <= a < b < overhang_rows(c).len() ==> overhang_rows(c)[a] < overhang_rows(c)[b],
        overhang_rows(c).len() <= c.len(),
{
    let pred = |i: int| is_overhang(c, i);
    lemma_select(1, c.len() as int, pred);
    assert forall|m: int| 0 <= m < overhang_rows(c).len() implies is_overhang(
        c,
        #[trigger] overhang_rows(c)[m],
    ) by {
        assert(overhang_rows(c).contains(overhang_rows(c)[m]));
    }
}

/// A selection over a range splits at any point of the range.
pub proof fn lemma_select_split(lo: int, mid: int, hi: int, pred: spec_fn(int) -> bool)
    requires
        lo <= mid <= hi,
    ensures
        select(lo, hi, pred) == select(lo, mid, pred) + select(mid, hi, pred),
    decreases hi - mid,
{
    if mid < hi {
        lemma_select_split(lo, mid, hi - 1, pred);
    }
}

/// A selection in which nothing qualifies is empty.
pub proof fn lemma_select_none(lo: int, hi: int, pred: spec_fn(int) -> bool)
    requires
        forall|x: int| lo <= x < hi ==> !#[trigger] pred(x),
    ensures
        select(lo, hi, pred) == Seq::<int>::empty(),
    decreases hi - lo,
{
    if lo < hi {
        lemma_select_none(lo, hi - 1, pred);
    }
}

/// How the kept rows grow with one more row of the grid.
pub proof fn lemma_kept_rows_step(g: Grid, i: int)
    requires
        0 <= i < g.len(),
    ensures
        kept_rows(g.take(i + 1)) == if row_full(g[i]) {
            kept_rows(g.take(i))
        } else {
            kept_rows(g.take(i)).push(g[i])
        },
        kept_rows(g.take(i)).len() <= i,
{
    reveal(Seq::filter);
    let s = g.take(i + 1);
    assert(s.drop_last() =~= g.take(i));
    g.take(i).lemma_filter_len(not_full());
}

/// The empty grid has no full row.
pub proof fn lemma_empty_grid_has_no_full_row()
    ensures
        well_formed(empty_grid()),
        full_row_count(empty_grid()) == 0,
{
    let g = empty_grid();
    assert forall|i: int| 0 <= i < g.len() implies not_full()(#[trigger] g[i]) by {
        assert(!g[i][0]);
    }
    lemma_filter_keeps_all(g, not_full());
}

/// A filter that every element passes keeps the whole sequence.
pub proof fn lemma_filter_keeps_all<A>(s: Seq<A>, pred: spec_fn(A) -> bool)
    requires
        forall|i: int| 0 <= i < s.len() ==> pred(#[trigger] s[i]),
    ensures
        s.filter(pred) == s,
    decreases s.len(),
{
    reveal(Seq::filter);
    if s.len() > 0 {
        lemma_filter_keeps_all(s.drop_last(), pred);
    }
}

/// After a clearing pass the grid is whole again and has no full row, so
/// that a second pass finds nothing to clear.
pub proof fn lemma_cleared_grid(g: Grid)
    requires
        well_formed(g),
    ensures
        well_formed(without_full_rows(g)),
        0 <= full_row_count(g) <= 20,
        forall|i: int| 0 <= i < 20 ==> !row_full(#[trigger] without_full_rows(g)[i]),
        full_row_count(without_full_rows(g)) == 0,
        without_full_rows(without_full_rows(g)) == without_full_rows(g),
{
    let kept = kept_rows(g);
    let n = full_row_count(g);
    let h = without_full_rows(g);
    assert forall|i: int| 0 <= i < kept.len() implies (#[trigger] kept[i]).len() == 10
        && !row_full(kept[i]) by {
        g.lemma_filter_contains_rev(not_full(), kept[i]);
    }
    assert forall|i: int| 0 <= i < 20 implies (#[trigger] h[i]).len() == 10 && !row_full(h[i]) by {
        if i < n {
            assert(!empty_row()[0]);
        }
    }
    lemma_filter_keeps_all(h, not_full());
}

/// The resting rows of a column lie in the column, each listed once.
pub proof fn lemma_rest_rows(c: Seq<bool>)
    ensures
        forall|m: int| 0 <= m < rest_rows(c).len() ==> 0 <= #[trigger] rest_rows(c)[m] < c.len(),
        rest_rows(c).no_duplicates(),
{
    lemma_column_top(c);
    let top = column_top(c);
    let pred = |i: int| is_covered_rest(c, i);
    let sel = select(top + 1, c.len() as int, pred);
    lemma_select(top + 1, c.len() as int, pred);
    assert forall|m: int| 0 <= m < sel.len() implies top + 1 <= #[trigger] sel[m] < c.len() by {
        assert(sel.contains(sel[m]));
    }
}

/// What a list by columns holds: the rows of each column, paired with the
/// column; and it repeats nothing if no column does.
pub proof fn lemma_by_columns(rows_of: spec_fn(int) -> Seq<int>, n: int)
    requires
        0 <= n,
    ensures
        forall|k: int|
            0 <= k < by_columns(rows_of, n).len() ==> 0 <= (#[trigger] by_columns(rows_of, n)[k]).1
                < n && rows_of(by_columns(rows_of, n)[k].1).contains(by_columns(rows_of, n)[k].0),
        forall|i: int, j: int|
            0 <= j < n && rows_of(j).contains(i) ==> #[trigger] by_columns(rows_of, n).contains(
                (i, j),
            ),
        (forall|j: int| 0 <= j < n ==> (#[trigger] rows_of(j)).no_duplicates()) ==> by_columns(
            rows_of,
            n,
        ).no_duplicates(),
    decreases n,
{
    if n > 0 {
        lemma_by_columns(rows_of, n - 1);
        let prev = by_columns(rows_of, n - 1);
        let rows = rows_of(n - 1);
        let cur = by_columns(rows_of, n);
        assert forall|i: int, j: int| 0 <= j < n && rows_of(j).contains(i) implies #[trigger]
            cur.contains((i, j)) by {
            if j < n - 1 {
                assert(prev.contains((i, j)));
                let k = choose|k: int| 0 <= k < prev.len() && prev[k] == (i, j);
                assert(cur[k] == (i, j));
            } else {
                let m = choose|m: int| 0 <= m < rows.len() && rows[m] == i;
                assert(cur[prev.len() + m] == (i, j));
            }
        }
    }
}

/// A list by columns is no longer than its columns together.
pub proof fn lemma_by_columns_len(rows_of: spec_fn(int) -> Seq<int>, n: int, bound: int)
    requires
        0 <= n,
        forall|j: int| 0 <= j < n ==> (#[trigger] rows_of(j)).len() <= bound,
    ensures
        by_columns(rows_of, n).len() <= n * bound,
    decreases n,
{
    if n > 0 {
        lemma_by_columns_len(rows_of, n - 1, bound);
        assert(n * bound == (n - 1) * bound + bound) by (nonlinear_arith);
    } else {
        assert(n * bound == 0) by (nonlinear_arith)
            requires
                n == 0,
        ;
    }
}

/// A filter lets nothing through twice that came in once.
pub proof fn lemma_filter_no_duplicates<A>(s: Seq<A>, pred: spec_fn(A) -> bool)
    requires
        s.no_duplicates(),
    ensures
        s.filter(pred).no_duplicates(),
    decreases s.len(),
{
    reveal(Seq::filter);
    if s.len() > 0 {
        let init = s.drop_last();
        lemma_filter_no_duplicates(init, pred);
        let f = init.filter(pred);
        if pred(s.last()) {
            if f.contains(s.last()) {
                init.lemma_filter_contains_rev(pred, s.last());
            }
        }
    }
}

} // verus!
