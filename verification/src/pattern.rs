//! Surface patterns: small templates over the skyline of a board.
//!
//! A template is a rectangle of symbols. `T` marks the top-most block of a
//! column, `1` a cell that must be occupied, `0` a cell that must be empty,
//! and any other symbol places no requirement. The first `T` in reading order
//! anchors the template to the skyline; every other `T` must then coincide
//! with the top of its own column.

use crate::board::Board;
use crate::grid::{column, column_top, select, signed_cell, Grid};
use vstd::prelude::*;

verus! {

/// The mathematical content of a compiled pattern.
pub struct PatternView {
    /// Row and column, inside the template, of the anchoring top.
    pub first_top: (int, int),
    /// For each template column, the row of its top marker if it has one
    /// other than the anchor.
    pub tops: Seq<Option<int>>,
    /// The cells with a required value, as (row, column, occupied).
    pub cells: Seq<(int, int, bool)>,
    /// Smallest board column at which the template's left edge may stand.
    pub min_j: int,
    /// Largest board column at which the template's left edge may stand.
    pub max_j: int,
}

/// A compiled surface pattern.
pub struct SurfacePattern {
    pub(crate) first_top: (isize, isize),
    pub(crate) tops: Vec<Option<isize>>,
    pub(crate) cells: Vec<(isize, isize, bool)>,
    pub(crate) min_j: isize,
    pub(crate) max_j: isize,
}

/// The symbols of a template, one sequence of characters per row.
pub open spec fn template_of(pattern: &[&str]) -> Seq<Seq<char>> {
    Seq::new(pattern@.len(), |i: int| pattern@[i]@)
}

/// Every row of the template has the same, non-zero width.
pub open spec fn rectangular(t: Seq<Seq<char>>) -> bool {
    &&& t.len() > 0
    &&& t[0].len() > 0
    &&& forall|i: int| 0 <= i < t.len() ==> (#[trigger] t[i]).len() == t[0].len()
}

/// The template has a top marker at row `i`, column `j`.
pub open spec fn top_at(t: Seq<Seq<char>>, i: int, j: int) -> bool {
    &&& 0 <= i < t.len()
    &&& 0 <= j < t[i].len()
    &&& t[i][j] == 'T'
}

/// Position `(a, b)` comes before `(i, j)` in reading order.
pub open spec fn reads_before(a: int, b: int, i: int, j: int) -> bool {
    a < i || (a == i && b < j)
}

/// `(i, j)` holds the first top marker of the template in reading order.
pub open spec fn is_first_top(t: Seq<Seq<char>>, i: int, j: int) -> bool {
    &&& top_at(t, i, j)
    &&& forall|a: int, b: int| reads_before(a, b, i, j) ==> !top_at(t, a, b)
}

/// A template that can be compiled: a rectangle with at least one top
/// marker, at most one per column, and small enough for its coordinates to
/// be added to board coordinates.
pub open spec fn valid_template(t: Seq<Seq<char>>) -> bool {
    &&& rectangular(t)
    &&& t.len() + 20 <= isize::MAX
    &&& t[0].len() + 10 <= isize::MAX
    &&& exists|i: int, j: int| top_at(t, i, j)
    &&& forall|i1: int, i2: int, j: int| top_at(t, i1, j) && top_at(t, i2, j) ==> i1 == i2
}

/// The first top marker in reading order.
pub open spec fn first_top(t: Seq<Seq<char>>) -> (int, int) {
    choose|p: (int, int)| is_first_top(t, p.0, p.1)
}

/// The top constraint of template column `j`: the row of its top marker,
/// unless the column has none or its marker is the anchor.
pub open spec fn column_top_constraint(t: Seq<Seq<char>>, j: int) -> Option<int> {
    if exists|i: int| top_at(t, i, j) && (i, j) != first_top(t) {
        Some(choose|i: int| top_at(t, i, j) && (i, j) != first_top(t))
    } else {
        None
    }
}

/// The cell constraints among the first `n` symbols of row `i`.
pub open spec fn row_cells(r: Seq<char>, i: int, n: int) -> Seq<(int, int, bool)>
    decreases n,
{
    if n <= 0 {
        Seq::empty()
    } else if r[n - 1] == '0' {
        row_cells(r, i, n - 1).push((i, n - 1, false))
    } else if r[n - 1] == '1' {
        row_cells(r, i, n - 1).push((i, n - 1, true))
    } else {
        row_cells(r, i, n - 1)
    }
}

/// The cell constraints of the first `m` rows, in reading order.
pub open spec fn cells_of_rows(t: Seq<Seq<char>>, m: int) -> Seq<(int, int, bool)>
    decreases m,
{
    if m <= 0 {
        Seq::empty()
    } else {
        cells_of_rows(t, m - 1) + row_cells(t[m - 1], m - 1, t[m - 1].len() as int)
    }
}

/// Column `j` constrains the board: it holds a `0` or a `T`. A column that
/// does not may hang over the wall, which reads as occupied.
pub open spec fn column_bound(t: Seq<Seq<char>>, j: int) -> bool {
    exists|i: int| 0 <= i < t.len() && (#[trigger] t[i][j] == '0' || t[i][j] == 'T')
}

/// The number of unbound columns in a row, counted from column `j` rightwards.
pub open spec fn leading_free(t: Seq<Seq<char>>, j: int) -> int
    decreases t[0].len() - j,
{
    if j < 0 || j >= t[0].len() || column_bound(t, j) {
        0
    } else {
        1 + leading_free(t, j + 1)
    }
}

/// The number of unbound columns in a row, counted leftwards from the column
/// before `j`.
pub open spec fn trailing_free(t: Seq<Seq<char>>, j: int) -> int
    decreases j,
{
    if j <= 0 || j > t[0].len() || column_bound(t, j - 1) {
        0
    } else {
        1 + trailing_free(t, j - 1)
    }
}

/// What a template compiles to.
pub open spec fn compile(t: Seq<Seq<char>>) -> PatternView {
    PatternView {
        first_top: first_top(t),
        tops: Seq::new(t[0].len(), |j: int| column_top_constraint(t, j)),
        cells: cells_of_rows(t, t.len() as int),
        min_j: -leading_free(t, 0),
        max_j: 10 - t[0].len() + trailing_free(t, t[0].len() as int),
    }
}

impl PatternView {
    /// The constraints stay inside the board for every admitted anchor
    /// column, and every coordinate can be added to a board coordinate.
    pub open spec fn wf(self) -> bool {
        &&& 0 <= self.first_top.0 <= isize::MAX - 20
        &&& -self.min_j <= self.first_top.1 <= 9 - self.max_j
        &&& self.tops.len() + 10 <= isize::MAX
        &&& -self.tops.len() <= self.min_j <= 0
        &&& 10 - self.tops.len() <= self.max_j <= 10
        &&& forall|j: int|
            0 <= j < self.tops.len() ==> (#[trigger] self.tops[j] matches Some(i) ==> 0 <= i
                <= isize::MAX - 20 && -self.min_j <= j <= 9 - self.max_j)
        &&& forall|k: int|
            0 <= k < self.cells.len() ==> 0 <= (#[trigger] self.cells[k]).0 <= isize::MAX - 20
                && 0 <= self.cells[k].1 < self.tops.len()
    }
}

impl View for SurfacePattern {
    type V = PatternView;

    /// The fields as mathematical integers.
    closed spec fn view(&self) -> PatternView {
        PatternView {
            first_top: (self.first_top.0 as int, self.first_top.1 as int),
            tops: self.tops@.map_values(|t: Option<isize>| top_as_int(t)),
            cells: self.cells@.map_values(|c: (isize, isize, bool)| cell_as_int(c)),
            min_j: self.min_j as int,
            max_j: self.max_j as int,
        }
    }
}

/// A top constraint as a mathematical integer.
pub open spec fn top_as_int(t: Option<isize>) -> Option<int> {
    match t {
        Some(i) => Some(i as int),
        None => None,
    }
}

/// A cell constraint with mathematical coordinates.
pub open spec fn cell_as_int(c: (isize, isize, bool)) -> (int, int, bool) {
    (c.0 as int, c.1 as int, c.2)
}

/// The symbols held by a vector of rows.
spec fn symbols(grid: Vec<Vec<char>>) -> Seq<Seq<char>> {
    Seq::new(grid@.len(), |i: int| grid@[i]@)
}

/// What the scan knows of the anchor when it stands at `(i, j)`.
spec fn anchor_scanned(t: Seq<Seq<char>>, first: Option<(isize, isize)>, i: int, j: int) -> bool {
    match first {
        None => forall|a: int, b: int| reads_before(a, b, i, j) ==> !top_at(t, a, b),
        Some(p) => is_first_top(t, p.0 as int, p.1 as int) && reads_before(
            p.0 as int,
            p.1 as int,
            i,
            j,
        ),
    }
}

/// What the scan knows of the other tops when it stands at `(i, j)`.
spec fn tops_scanned(
    t: Seq<Seq<char>>,
    first: Option<(isize, isize)>,
    tops: Seq<Option<isize>>,
    i: int,
    j: int,
) -> bool {
    forall|c: int|
        0 <= c < tops.len() ==> match #[trigger] tops[c] {
            Some(r) => top_at(t, r as int, c) && reads_before(r as int, c, i, j) && (
            first matches Some(p) && (p.0 != r || p.1 != c)),
            None => forall|r: int|
                top_at(t, r, c) && reads_before(r, c, i, j) ==> (first matches Some(p) && p.0 == r
                    && p.1 == c),
        }
}


/// The unbound columns counted rightwards end before a bound column.
proof fn lemma_leading_free_bound(t: Seq<Seq<char>>, j: int, c: int)
    requires
        0 <= j <= c < t[0].len(),
        column_bound(t, c),
    ensures
        0 <= leading_free(t, j) <= c - j,
    decreases c - j,
{
    if j < c && !column_bound(t, j) {
        lemma_leading_free_bound(t, j + 1, c);
    }
}

/// The unbound columns counted leftwards end after a bound column.
proof fn lemma_trailing_free_bound(t: Seq<Seq<char>>, j: int, c: int)
    requires
        0 <= c < j <= t[0].len(),
        column_bound(t, c),
    ensures
        0 <= trailing_free(t, j) <= j - 1 - c,
    decreases j - c,
{
    if c < j - 1 && !column_bound(t, j - 1) {
        lemma_trailing_free_bound(t, j - 1, c);
    }
}


/// The characters of a string, in order.
fn chars_of(s: &str) -> (v: Vec<char>)
    ensures
        v@ == s@,
{
    let n = s.unicode_len();
    let mut v: Vec<char> = Vec::new();
    for k in 0..n
        invariant
            n == s@.len(),
            v@ == s@.subrange(0, k as int),
    {
        v.push(s.get_char(k));
    }
    v
}

/// The characters of every row of a template.
fn collect_symbols(pattern: &[&str]) -> (grid: Vec<Vec<char>>)
    ensures
        symbols(grid) == template_of(pattern),
{
    let mut grid: Vec<Vec<char>> = Vec::new();
    for i in 0..pattern.len()
        invariant
            grid@.len() == i,
            forall|k: int| 0 <= k < i ==> (#[trigger] grid@[k])@ == pattern@[k]@,
    {
        grid.push(chars_of(pattern[i]));
    }
    grid
}

/// Whether column `j` holds a `0` or a `T`.
fn column_is_bound(grid: &Vec<Vec<char>>, j: usize) -> (b: bool)
    requires
        rectangular(symbols(*grid)),
        j < symbols(*grid)[0].len(),
    ensures
        b == column_bound(symbols(*grid), j as int),
{
    let ghost t = symbols(*grid);
    for i in 0..grid.len()
        invariant
            t == symbols(*grid),
            rectangular(t),
            j < t[0].len(),
            forall|a: int|
                0 <= a < i ==> !(#[trigger] t[a][j as int] == '0' || t[a][j as int] == 'T'),
    {
        assert(t[i as int].len() == t[0].len());
        let c = grid[i][j];
        if c == '0' || c == 'T' {
            return true;
        }
    }
    false
}

/// Whether column `j` holds exactly one top marker; `None` if it holds
/// more than one.
fn column_has_top(grid: &Vec<Vec<char>>, j: usize) -> (res: Option<bool>)
    requires
        rectangular(symbols(*grid)),
        j < symbols(*grid)[0].len(),
    ensures
        res is None <==> exists|i1: int, i2: int|
            i1 != i2 && top_at(symbols(*grid), i1, j as int) && top_at(
                symbols(*grid),
                i2,
                j as int,
            ),
        res == Some(true) ==> exists|i: int| top_at(symbols(*grid), i, j as int),
        res == Some(false) ==> forall|i: int| !top_at(symbols(*grid), i, j as int),
{
    let ghost t = symbols(*grid);
    let mut seen = false;
    let ghost mut at: int = 0;
    for i in 0..grid.len()
        invariant
            t == symbols(*grid),
            rectangular(t),
            j < t[0].len(),
            seen ==> 0 <= at < i && top_at(t, at, j as int),
            forall|a: int| 0 <= a < i && top_at(t, a, j as int) ==> seen && a == at,
    {
        assert(t[i as int].len() == t[0].len());
        let c = grid[i][j];
        if c == 'T' {
            assert(top_at(t, i as int, j as int));
            if seen {
                return None;
            }
            seen = true;
            proof {
                at = i as int;
            }
        }
    }
    Some(seen)
}

/// Whether the template can be compiled: whether it is a rectangle with at
/// least one top marker and at most one in each column.
pub fn is_valid_template(pattern: &[&str]) -> (b: bool)
    ensures
        b == valid_template(template_of(pattern)),
{
    let ghost t = template_of(pattern);
    let grid = collect_symbols(pattern);
    let height = grid.len();
    if height == 0 || height > isize::MAX as usize - 20 {
        return false;
    }
    let width = grid[0].len();
    if width == 0 || width > isize::MAX as usize - 10 {
        return false;
    }
    for i in 1..height
        invariant
            t == symbols(grid),
            t == template_of(pattern),
            height == t.len(),
            height > 0,
            width == t[0].len(),
            width > 0,
            forall|a: int| 0 <= a < i ==> (#[trigger] t[a]).len() == width,
    {
        if grid[i].len() != width {
            assert(t[i as int].len() != t[0].len());
            return false;
        }
    }

    let mut any_top = false;
    for j in 0..width
        invariant
            t == symbols(grid),
            t == template_of(pattern),
            rectangular(t),
            height == t.len(),
            width == t[0].len(),
            any_top <==> exists|i: int, c: int| c < j && top_at(t, i, c),
            forall|i1: int, i2: int, c: int|
                c < j && top_at(t, i1, c) && top_at(t, i2, c) ==> i1 == i2,
    {
        match column_has_top(&grid, j) {
            None => {
                return false;
            },
            Some(has_top) => {
                if has_top {
                    any_top = true;
                }
            },
        }
    }
    any_top
}

impl SurfacePattern {
    /// The invariant of a compiled pattern.
    pub open spec fn wf(&self) -> bool {
        self@.wf()
    }

    /// Compiles a template if it can be compiled.
    pub fn try_new(pattern: &[&str]) -> (res: Option<SurfacePattern>)
        ensures
            res is Some <==> valid_template(template_of(pattern)),
            res matches Some(p) ==> p.wf() && p@ == compile(template_of(pattern)),
    {
        if is_valid_template(pattern) {
            Some(Self::new(pattern))
        } else {
            None
        }
    }

    /// Compiles a template.
    pub fn new(pattern: &[&str]) -> (p: SurfacePattern)
        requires
            valid_template(template_of(pattern)),
        ensures
            p@ == compile(template_of(pattern)),
            p.wf(),
    {
        let ghost t = template_of(pattern);
        let grid = collect_symbols(pattern);
        let height = grid.len();
        let width = grid[0].len();

        let mut tops: Vec<Option<isize>> = Vec::new();
        for j in 0..width
            invariant
                tops@.len() == j,
                forall|c: int| 0 <= c < j ==> #[trigger] tops@[c] == None::<isize>,
        {
            tops.push(None);
        }

        let mut first: Option<(isize, isize)> = None;
        let mut cells: Vec<(isize, isize, bool)> = Vec::new();

        for i in 0..height
            invariant
                t == symbols(grid),
                valid_template(t),
                height == t.len(),
                width == t[0].len(),
                tops@.len() == width,
                anchor_scanned(t, first, i as int, 0),
                tops_scanned(t, first, tops@, i as int, 0),
                cells@.map_values(|c: (isize, isize, bool)| cell_as_int(c)) == cells_of_rows(
                    t,
                    i as int,
                ),
                forall|k: int|
                    0 <= k < cells@.len() ==> 0 <= (#[trigger] cells@[k]).0 < height && 0
                        <= cells@[k].1 < width,
        {
            for j in 0..width
                invariant
                    t == symbols(grid),
                    valid_template(t),
                    height == t.len(),
                    width == t[0].len(),
                    i < height,
                    t[i as int].len() == width,
                    tops@.len() == width,
                    anchor_scanned(t, first, i as int, j as int),
                    tops_scanned(t, first, tops@, i as int, j as int),
                    cells@.map_values(|c: (isize, isize, bool)| cell_as_int(c)) == cells_of_rows(
                        t,
                        i as int,
                    ) + row_cells(t[i as int], i as int, j as int),
                    forall|k: int|
                        0 <= k < cells@.len() ==> 0 <= (#[trigger] cells@[k]).0 < height && 0
                            <= cells@[k].1 < width,
            {
                let c = grid[i][j];
                let ghost old_cells = cells@;
                if c == '0' {
                    cells.push((i as isize, j as isize, false));
                    assert(cells@.map_values(|c: (isize, isize, bool)| cell_as_int(c))
                        =~= old_cells.map_values(|c: (isize, isize, bool)| cell_as_int(c)).push(
                        (i as int, j as int, false),
                    ));
                } else if c == '1' {
                    cells.push((i as isize, j as isize, true));
                    assert(cells@.map_values(|c: (isize, isize, bool)| cell_as_int(c))
                        =~= old_cells.map_values(|c: (isize, isize, bool)| cell_as_int(c)).push(
                        (i as int, j as int, true),
                    ));
                } else if c == 'T' {
                    match first {
                        Some(_) => {
                            tops.set(j, Some(i as isize));
                        },
                        None => {
                            first = Some((i as isize, j as isize));
                        },
                    }
                }
            }
        }

        let mut min_j: isize = 0;
        let mut lead: usize = 0;
        while lead < width && !column_is_bound(&grid, lead)
            invariant
                t == symbols(grid),
                rectangular(t),
                width == t[0].len(),
                width + 10 <= isize::MAX,
                lead <= width,
                min_j == -(lead as int),
                leading_free(t, 0) == lead + leading_free(t, lead as int),
            decreases width - lead,
        {
            min_j -= 1;
            lead += 1;
        }

        let mut max_j: isize = 10 - (width as isize);
        let mut trail: usize = width;
        while trail > 0 && !column_is_bound(&grid, trail - 1)
            invariant
                t == symbols(grid),
                rectangular(t),
                width == t[0].len(),
                width + 10 <= isize::MAX,
                trail <= width,
                max_j == 10 - width + (width - trail),
                trailing_free(t, width as int) == (width - trail) + trailing_free(t, trail as int),
            decreases trail,
        {
            max_j += 1;
            trail -= 1;
        }

        let anchor = match first {
            Some(p) => p,
            None => (0, 0),
        };
        let p = SurfacePattern { first_top: anchor, tops, cells, min_j, max_j };
        proof {
            let aj = anchor.1 as int;
            lemma_leading_free_bound(t, 0, aj);
            lemma_trailing_free_bound(t, width as int, aj);
            assert(p@.tops =~= compile(t).tops);
            assert forall|j: int| 0 <= j < p@.tops.len() implies (#[trigger] p@.tops[j] matches Some(
                i,
            ) ==> 0 <= i <= isize::MAX - 20 && -p@.min_j <= j <= 9 - p@.max_j) by {
                if let Some(r) = p.tops@[j] {
                    lemma_leading_free_bound(t, 0, j);
                    lemma_trailing_free_bound(t, width as int, j);
                }
            }
        }
        p
    }
}

/// The pattern matches the grid with its left edge at board column
/// `pat_j`: once the anchor is aligned with the top of its column, every
/// other top marker stands at the top of its own column and every cell
/// constraint reads the required value.
pub open spec fn matches_at(g: Grid, p: PatternView, pat_j: int) -> bool {
    let pat_i = column_top(column(g, pat_j + p.first_top.1)) - p.first_top.0;
    &&& forall|j: int|
        0 <= j < p.tops.len() ==> (#[trigger] p.tops[j] matches Some(t) ==> column_top(
            column(g, pat_j + j),
        ) == pat_i + t)
    &&& forall|k: int|
        0 <= k < p.cells.len() ==> signed_cell(
            g,
            pat_i + (#[trigger] p.cells[k]).0,
            pat_j + p.cells[k].1,
        ) == p.cells[k].2
}

/// The test for a column at which the pattern matches.
pub open spec fn matches_in(g: Grid, p: PatternView) -> spec_fn(int) -> bool {
    |pat_j: int| matches_at(g, p, pat_j)
}

/// The number of admitted anchor columns at which the pattern matches.
pub open spec fn pattern_count(g: Grid, p: PatternView) -> int {
    select(p.min_j, p.max_j + 1, matches_in(g, p)).len() as int
}

impl Board {
    /// Counts the places along the skyline at which the pattern matches.
    pub fn count_surface_pattern(&self, pattern: &SurfacePattern) -> (count: usize)
        requires
            self.wf(),
            pattern.wf(),
        ensures
            count == pattern_count(self@.grid, pattern@),
    {
        let mut count: usize = 0;
        let ghost g = self@.grid;
        let ghost p = pattern@;
        let ghost pred = matches_in(g, p);
        let mut pat_j: isize = pattern.min_j;

        while pat_j <= pattern.max_j
            invariant
                self.wf(),
                pattern.wf(),
                g == self@.grid,
                p == pattern@,
                pred == matches_in(g, p),
                pattern.min_j <= pat_j <= pattern.max_j + 1 || pat_j == pattern.min_j,
                count == select(p.min_j, pat_j as int, pred).len(),
                count <= pat_j - pattern.min_j,
            decreases pattern.max_j + 1 - pat_j,
        {
            let ref_top = self.col((pat_j + pattern.first_top.1) as usize).top();
            let pat_i: isize = (ref_top as isize) - pattern.first_top.0;
            let mut ok = true;

            let mut j: usize = 0;
            while ok && j < pattern.tops.len()
                invariant
                    self.wf(),
                    pattern.wf(),
                    g == self@.grid,
                    p == pattern@,
                    pattern.min_j <= pat_j <= pattern.max_j,
                    pat_i == column_top(column(g, pat_j + p.first_top.1)) - p.first_top.0,
                    -isize::MAX + 20 <= pat_i <= 20,
                    j <= pattern.tops@.len(),
                    ok ==> forall|c: int|
                        0 <= c < j ==> (#[trigger] p.tops[c] matches Some(t) ==> column_top(
                            column(g, pat_j + c),
                        ) == pat_i + t),
                    !ok ==> !matches_at(g, p, pat_j as int),
                decreases pattern.tops@.len() - j,
            {
                assert(p.tops[j as int] == top_as_int(pattern.tops@[j as int]));
                match pattern.tops[j] {
                    Some(top) => {
                        let t = self.col((pat_j + (j as isize)) as usize).top();
                        if t as isize != pat_i + top {
                            ok = false;
                        }
                    },
                    None => {},
                }
                j += 1;
            }

            let mut k: usize = 0;
            while ok && k < pattern.cells.len()
                invariant
                    self.wf(),
                    pattern.wf(),
                    g == self@.grid,
                    p == pattern@,
                    pattern.min_j <= pat_j <= pattern.max_j,
                    pat_i == column_top(column(g, pat_j + p.first_top.1)) - p.first_top.0,
                    -isize::MAX + 20 <= pat_i <= 20,
                    k <= pattern.cells@.len(),
                    ok ==> forall|c: int|
                        0 <= c < p.tops.len() ==> (#[trigger] p.tops[c] matches Some(t)
                            ==> column_top(column(g, pat_j + c)) == pat_i + t),
                    ok ==> forall|n: int|
                        0 <= n < k ==> signed_cell(
                            g,
                            pat_i + (#[trigger] p.cells[n]).0,
                            pat_j + p.cells[n].1,
                        ) == p.cells[n].2,
                    !ok ==> !matches_at(g, p, pat_j as int),
                decreases pattern.cells@.len() - k,
            {
                assert(p.cells[k as int] == cell_as_int(pattern.cells@[k as int]));
                let (i, j, cell_value) = pattern.cells[k];
                if self.get_signed(pat_i + i, pat_j + j) != cell_value {
                    ok = false;
                }
                k += 1;
            }

            if ok {
                count += 1;
            }
            pat_j += 1;
        }
        count
    }
}

} // verus!
