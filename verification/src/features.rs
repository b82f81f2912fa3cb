//! The integer features of a board: what an evaluator weighs to score it.
//!
//! The features are counts and flags. Three libraries of surface patterns
//! are fixed here: good, bad and very bad shapes of the skyline. For
//! pattern counting the column of the well, if the board has one, is
//! closed with a block in its top cell, so that the well meant for the
//! four-row clear is not counted as a defect.

use crate::board::Board;
use crate::grid::{select, with_cell, Grid};
use crate::pattern::{compile, pattern_count, valid_template, PatternView, SurfacePattern};
use crate::surface::{height_at, hole_cells, overhang_cells, readiness};
use vstd::prelude::*;

verus! {

/// The number of integer features.
pub const FEATURE_COUNT: usize = 37;

/// The symbols of a template given as a vector of rows.
pub open spec fn rows_of(rows: Seq<&'static str>) -> Seq<Seq<char>> {
    Seq::new(rows.len(), |i: int| rows[i]@)
}

/// The templates of the good shapes: flat stretches and single steps next
/// to a flat stretch.
pub open spec fn good_templates() -> Seq<Seq<Seq<char>>> {
    seq![
        rows_of(seq!["TT"]),
        rows_of(seq!["TTT"]),
        rows_of(seq!["  T", "TT "]),
        rows_of(seq!["T  ", " TT"]),
    ]
}

/// The templates of the bad shapes: steps of two or more, wells of depth
/// two, and hooks.
pub open spec fn bad_templates() -> Seq<Seq<Seq<char>>> {
    seq![
        rows_of(seq![" T", " 1", "T "]),
        rows_of(seq!["T ", "1 ", " T"]),
        rows_of(seq![" 1", " 1", " 1", "T "]),
        rows_of(seq!["1 ", "1 ", "1 ", " T"]),
        rows_of(seq!["T T", "1 1", " T "]),
        rows_of(seq!["T 1", "1 1", " T "]),
        rows_of(seq!["1 T", "1 1", " T "]),
        rows_of(seq!["  1", "T 1", " T "]),
        rows_of(seq!["1  ", "1 T", " T "]),
    ]
}

/// The templates of the very bad shapes: wells of depth three or more and
/// double wells.
pub open spec fn very_bad_templates() -> Seq<Seq<Seq<char>>> {
    seq![
        rows_of(seq!["1 1", "1 1", "1 1", " T "]),
        rows_of(seq!["1   1", "1 T 1", " T T "]),
        rows_of(seq!["1   1", "1 T 1", "1 1 1", " T T "]),
    ]
}

/// What the templates of a library compile to.
pub open spec fn compiled(templates: Seq<Seq<Seq<char>>>) -> Seq<PatternView> {
    Seq::new(templates.len(), |k: int| compile(templates[k]))
}

/// The contents of a library of patterns.
pub open spec fn library_views(lib: Seq<SurfacePattern>) -> Seq<PatternView> {
    Seq::new(lib.len(), |k: int| lib[k]@)
}

/// The patterns of a library are sound, compiled from the templates, and
/// at most five columns wide.
pub open spec fn compiled_from(lib: Seq<SurfacePattern>, templates: Seq<Seq<Seq<char>>>) -> bool {
    &&& library_views(lib) == compiled(templates)
    &&& forall|k: int| 0 <= k < lib.len() ==> (#[trigger] lib[k]).wf() && lib[k]@.tops.len() <= 5
}

/// The number of matches of the first `n` patterns of a library.
pub open spec fn library_count(g: Grid, lib: Seq<PatternView>, n: int) -> int
    decreases n,
{
    if n <= 0 {
        0
    } else {
        library_count(g, lib, n - 1) + pattern_count(g, lib[n - 1])
    }
}

/// A bound on the number of matches of the first `n` patterns of a
/// library: each pattern has its width and eleven more places to stand.
pub open spec fn library_span(lib: Seq<PatternView>, n: int) -> int
    decreases n,
{
    if n <= 0 {
        0
    } else {
        library_span(lib, n - 1) + 11 + lib[n - 1].tops.len()
    }
}

/// The readiness depth of the grid; zero if it has no well.
pub open spec fn well_depth(g: Grid) -> int {
    match readiness(g) {
        Some((depth, _)) => depth,
        None => 0,
    }
}

/// The column of the well of the grid; -1 if it has none.
pub open spec fn well_column(g: Grid) -> int {
    match readiness(g) {
        Some((_, j)) => j,
        None => -1,
    }
}

/// The grid with the top cell of its well column occupied.
pub open spec fn with_well_closed(g: Grid) -> Grid {
    if well_column(g) >= 0 {
        with_cell(g, 0, well_column(g), true)
    } else {
        g
    }
}

/// One if `b` holds, zero otherwise.
pub open spec fn flag(b: bool) -> int {
    if b {
        1
    } else {
        0
    }
}

/// The integer features of a grid, in order: the constant one; the number
/// of overhangs; the number of holes; ten flags, one for each readiness
/// depth from 0 to 9; a flag for a depth of ten or more; ten flags, one
/// for each column that may hold the well; for each column the readiness
/// depth if it holds the well, else zero; and the numbers of good, bad
/// and very bad shapes along the skyline.
pub open spec fn features(g: Grid) -> Seq<int> {
    let depth = well_depth(g);
    let well = well_column(g);
    let closed = with_well_closed(g);
    seq![1int, overhang_cells(g).len() as int, hole_cells(g).len() as int] + Seq::new(
        10,
        |i: int| flag(i == depth),
    ) + seq![flag(depth >= 10)] + Seq::new(10, |j: int| flag(j == well)) + Seq::new(
        10,
        |j: int|
            if j == well {
                depth
            } else {
                0
            },
    ) + seq![
        library_count(closed, compiled(good_templates()), 4),
        library_count(closed, compiled(bad_templates()), 9),
        library_count(closed, compiled(very_bad_templates()), 3),
    ]
}

/// The heights of the columns other than the well, from the left.
pub open spec fn heights_beside_well(g: Grid) -> Seq<int> {
    select(0, 10, |j: int| j != well_column(g)).map_values(|j: int| height_at(g, j))
}

/// The height of the highest of the first `n` columns.
pub open spec fn max_height(g: Grid, n: int) -> int
    decreases n,
{
    if n <= 0 {
        0
    } else if height_at(g, n - 1) > max_height(g, n - 1) {
        height_at(g, n - 1)
    } else {
        max_height(g, n - 1)
    }
}

/// The score of the plain heuristic: holes weigh ten thousand, overhangs
/// a hundred, and the height of the highest column one, all against the
/// board.
pub open spec fn naive_score(g: Grid) -> int {
    -(hole_cells(g).len() * 10000 + overhang_cells(g).len() * 100 + max_height(g, 10))
}

/// Compiles the templates of a library.
fn compile_library(templates: Vec<Vec<&'static str>>) -> (lib: Vec<SurfacePattern>)
    requires
        forall|k: int|
            0 <= k < templates@.len() ==> valid_template(rows_of(#[trigger] templates@[k]@))
                && rows_of(templates@[k]@)[0].len() <= 5,
    ensures
        compiled_from(lib@, Seq::new(templates@.len(), |k: int| rows_of(templates@[k]@))),
{
    let mut lib: Vec<SurfacePattern> = Vec::new();
    for k in 0..templates.len()
        invariant
            forall|k: int|
                0 <= k < templates@.len() ==> valid_template(rows_of(#[trigger] templates@[k]@))
                    && rows_of(templates@[k]@)[0].len() <= 5,
            lib@.len() == k,
            forall|n: int|
                0 <= n < k ==> (#[trigger] lib@[n]).wf() && lib@[n]@ == compile(
                    rows_of(templates@[n]@),
                ) && lib@[n]@.tops.len() <= 5,
    {
        let rows = templates[k].as_slice();
        lib.push(SurfacePattern::new(rows));
    }
    assert(library_views(lib@) =~= compiled(
        Seq::new(templates@.len(), |k: int| rows_of(templates@[k]@)),
    ));
    lib
}

/// The library of good shapes.
pub fn good_patterns() -> (lib: Vec<SurfacePattern>)
    ensures
        compiled_from(lib@, good_templates()),
{
    proof {
        reveal_strlit("TT");
        reveal_strlit("TTT");
        reveal_strlit("  T");
        reveal_strlit("TT ");
        reveal_strlit("T  ");
        reveal_strlit(" TT");
    }
    let templates = vec![vec!["TT"], vec!["TTT"], vec!["  T", "TT "], vec!["T  ", " TT"]];
    proof {
        let t = Seq::new(templates@.len(), |k: int| rows_of(templates@[k]@));
        assert(t =~~= good_templates());
        assert(crate::pattern::top_at(t[0], 0, 0));
        assert(crate::pattern::top_at(t[1], 0, 0));
        assert(crate::pattern::top_at(t[2], 0, 2));
        assert(crate::pattern::top_at(t[3], 0, 0));
    }
    compile_library(templates)
}

/// The library of bad shapes.
pub fn bad_patterns() -> (lib: Vec<SurfacePattern>)
    ensures
        compiled_from(lib@, bad_templates()),
{
    proof {
        reveal_strlit(" T");
        reveal_strlit(" 1");
        reveal_strlit("T ");
        reveal_strlit("1 ");
        reveal_strlit("T T");
        reveal_strlit("1 1");
        reveal_strlit(" T ");
        reveal_strlit("T 1");
        reveal_strlit("1 T");
        reveal_strlit("  1");
        reveal_strlit("1  ");
    }
    let templates = vec![
        vec![" T", " 1", "T "],
        vec!["T ", "1 ", " T"],
        vec![" 1", " 1", " 1", "T "],
        vec!["1 ", "1 ", "1 ", " T"],
        vec!["T T", "1 1", " T "],
        vec!["T 1", "1 1", " T "],
        vec!["1 T", "1 1", " T "],
        vec!["  1", "T 1", " T "],
        vec!["1  ", "1 T", " T "],
    ];
    proof {
        let t = Seq::new(templates@.len(), |k: int| rows_of(templates@[k]@));
        assert(t =~~= bad_templates());
        assert(crate::pattern::top_at(t[0], 0, 1));
        assert(crate::pattern::top_at(t[1], 0, 0));
        assert(crate::pattern::top_at(t[2], 3, 0));
        assert(crate::pattern::top_at(t[3], 3, 1));
        assert(crate::pattern::top_at(t[4], 0, 0));
        assert(crate::pattern::top_at(t[5], 0, 0));
        assert(crate::pattern::top_at(t[6], 0, 2));
        assert(crate::pattern::top_at(t[7], 1, 0));
        assert(crate::pattern::top_at(t[8], 1, 2));
    }
    compile_library(templates)
}

/// The library of very bad shapes.
pub fn very_bad_patterns() -> (lib: Vec<SurfacePattern>)
    ensures
        compiled_from(lib@, very_bad_templates()),
{
    proof {
        reveal_strlit("1 1");
        reveal_strlit(" T ");
        reveal_strlit("1   1");
        reveal_strlit("1 T 1");
        reveal_strlit(" T T ");
        reveal_strlit("1 1 1");
    }
    let templates = vec![
        vec!["1 1", "1 1", "1 1", " T "],
        vec!["1   1", "1 T 1", " T T "],
        vec!["1   1", "1 T 1", "1 1 1", " T T "],
    ];
    proof {
        let t = Seq::new(templates@.len(), |k: int| rows_of(templates@[k]@));
        assert(t =~~= very_bad_templates());
        assert(crate::pattern::top_at(t[0], 3, 1));
        assert(crate::pattern::top_at(t[1], 1, 2));
        assert(crate::pattern::top_at(t[2], 1, 2));
    }
    compile_library(templates)
}

/// The three libraries of surface patterns, compiled once.
pub struct PatternLibraries {
    pub(crate) good: Vec<SurfacePattern>,
    pub(crate) bad: Vec<SurfacePattern>,
    pub(crate) very_bad: Vec<SurfacePattern>,
}

impl PatternLibraries {
    /// Each library is compiled from its templates.
    pub closed spec fn wf(&self) -> bool {
        &&& compiled_from(self.good@, good_templates())
        &&& compiled_from(self.bad@, bad_templates())
        &&& compiled_from(self.very_bad@, very_bad_templates())
    }

    /// Compiles the three libraries.
    pub fn new() -> (l: PatternLibraries)
        ensures
            l.wf(),
    {
        PatternLibraries {
            good: good_patterns(),
            bad: bad_patterns(),
            very_bad: very_bad_patterns(),
        }
    }
}

/// A vector of counts as a sequence of integers.
pub open spec fn counts(v: Seq<usize>) -> Seq<int> {
    v.map_values(|x: usize| x as int)
}

/// A compiled library is as long as its list of templates, and its span
/// is at most sixteen places for each pattern.
proof fn lemma_compiled_library(lib: Seq<SurfacePattern>, templates: Seq<Seq<Seq<char>>>)
    requires
        compiled_from(lib, templates),
    ensures
        lib.len() == templates.len(),
        library_span(library_views(lib), lib.len() as int) <= 16 * lib.len(),
{
    let views = library_views(lib);
    lemma_library_span(views, views.len() as int);
}

/// The span of a library of patterns at most five columns wide.
proof fn lemma_library_span(lib: Seq<PatternView>, n: int)
    requires
        0 <= n <= lib.len(),
        forall|k: int| 0 <= k < lib.len() ==> (#[trigger] lib[k]).tops.len() <= 5,
    ensures
        library_span(lib, n) <= 16 * n,
    decreases n,
{
    if n > 0 {
        lemma_library_span(lib, n - 1);
    }
}

/// A pattern matches at no more places than it has to stand.
proof fn lemma_pattern_count_bound(g: Grid, p: PatternView)
    requires
        p.wf(),
    ensures
        0 <= pattern_count(g, p) <= 11 + p.tops.len(),
{
    crate::grid::lemma_select(p.min_j, p.max_j + 1, crate::pattern::matches_in(g, p));
}

impl Board {
    /// The number of places along the skyline at which the patterns of a
    /// library match, all patterns together.
    pub fn count_patterns(&self, lib: &Vec<SurfacePattern>) -> (count: usize)
        requires
            self.wf(),
            forall|k: int| 0 <= k < lib@.len() ==> (#[trigger] lib@[k]).wf(),
            library_span(library_views(lib@), lib@.len() as int) <= usize::MAX,
        ensures
            count == library_count(self@.grid, library_views(lib@), lib@.len() as int),
    {
        let mut count: usize = 0;
        let ghost views = library_views(lib@);
        proof {
            lemma_span_grows(views, 0, lib@.len() as int);
        }
        for k in 0..lib.len()
            invariant
                self.wf(),
                views == library_views(lib@),
                forall|n: int| 0 <= n < lib@.len() ==> (#[trigger] lib@[n]).wf(),
                library_span(views, lib@.len() as int) <= usize::MAX,
                count == library_count(self@.grid, views, k as int),
                count <= library_span(views, k as int),
                library_span(views, k as int) <= library_span(views, lib@.len() as int),
        {
            proof {
                lemma_pattern_count_bound(self@.grid, views[k as int]);
                lemma_span_grows(views, k + 1, lib@.len() as int);
            }
            let n = self.count_surface_pattern(&lib[k]);
            count += n;
        }
        count
    }

    /// The integer features of the board.
    pub fn integer_features(&self, libraries: &PatternLibraries) -> (f: Vec<usize>)
        requires
            self.wf(),
            libraries.wf(),
        ensures
            f@.len() == FEATURE_COUNT,
            counts(f@) == features(self@.grid),
    {
        let ghost g = self@.grid;
        let ghost want = features(g);
        let mut res: Vec<usize> = Vec::new();

        res.push(1);
        res.push(self.overhangs().len());
        res.push(self.holes().len());

        let readiness = self.tetris_readiness();
        let depth: usize = match readiness {
            Some((depth, _)) => depth,
            None => 0,
        };
        let well: usize = match readiness {
            Some((_, j)) => j,
            None => 10,
        };

        for i in 0..10
            invariant
                want == features(g),
                depth == well_depth(g),
                res@.len() == 3 + i,
                forall|k: int| 0 <= k < res@.len() ==> #[trigger] res@[k] == want[k],
        {
            res.push(if i == depth {
                1
            } else {
                0
            });
        }
        res.push(if depth >= 10 {
            1
        } else {
            0
        });
        for j in 0..10
            invariant
                want == features(g),
                well < 10 ==> well == well_column(g),
                well == 10 ==> well_column(g) == -1,
                well <= 10,
                res@.len() == 14 + j,
                forall|k: int| 0 <= k < res@.len() ==> #[trigger] res@[k] == want[k],
        {
            res.push(if j == well {
                1
            } else {
                0
            });
        }
        for j in 0..10
            invariant
                want == features(g),
                depth == well_depth(g),
                well < 10 ==> well == well_column(g),
                well == 10 ==> well_column(g) == -1,
                well <= 10,
                res@.len() == 24 + j,
                forall|k: int| 0 <= k < res@.len() ==> #[trigger] res@[k] == want[k],
        {
            res.push(if j == well {
                depth
            } else {
                0
            });
        }

        let mut pat_board = self.clone();
        if well < 10 {
            pat_board.set(0, well, true);
        }
        proof {
            lemma_compiled_library(libraries.good@, good_templates());
            lemma_compiled_library(libraries.bad@, bad_templates());
            lemma_compiled_library(libraries.very_bad@, very_bad_templates());
        }
        res.push(pat_board.count_patterns(&libraries.good));
        res.push(pat_board.count_patterns(&libraries.bad));
        res.push(pat_board.count_patterns(&libraries.very_bad));
        res
    }

    /// The heights of the columns other than the well, from the left.
    pub fn heights_beside_well(&self) -> (h: Vec<usize>)
        requires
            self.wf(),
        ensures
            counts(h@) == heights_beside_well(self@.grid),
    {
        let ghost g = self@.grid;
        let ghost pred = |j: int| j != well_column(g);
        let ghost height = |j: int| height_at(g, j);
        let well: usize = match self.tetris_readiness() {
            Some((_, j)) => j,
            None => 10,
        };
        let mut res: Vec<usize> = Vec::new();
        for j in 0..10
            invariant
                self.wf(),
                g == self@.grid,
                pred == |j: int| j != well_column(g),
                height == |j: int| height_at(g, j),
                well < 10 ==> well == well_column(g),
                well == 10 ==> well_column(g) == -1,
                well <= 10,
                counts(res@) == select(0, j as int, pred).map_values(height),
        {
            if j != well {
                res.push(self.col(j).height());
                assert(select(0, j + 1, pred).map_values(height) =~= select(
                    0,
                    j as int,
                    pred,
                ).map_values(height).push(height_at(g, j as int)));
            }
        }
        res
    }

    /// The score of the plain heuristic.
    pub fn naive_score(&self) -> (score: i64)
        requires
            self.wf(),
        ensures
            score == naive_score(self@.grid),
    {
        let ghost g = self@.grid;
        proof {
            crate::surface::lemma_cell_lists_are_short(g);
        }
        let overhang_count = self.overhangs().len() as i64;
        let hole_count = self.holes().len() as i64;

        let heights = self.heights();
        let mut highest: usize = 0;
        for j in 0..10
            invariant
                forall|k: int| 0 <= k < 10 ==> #[trigger] heights@[k] == height_at(g, k),
                highest == max_height(g, j as int),
                highest <= 20,
        {
            proof {
                crate::grid::lemma_column_top(crate::grid::column(g, j as int));
            }
            if heights[j] > highest {
                highest = heights[j];
            }
        }
        -(hole_count * 10000 + overhang_count * 100 + highest as i64)
    }
}

/// The span grows with the number of patterns.
proof fn lemma_span_grows(lib: Seq<PatternView>, a: int, b: int)
    requires
        0 <= a <= b,
    ensures
        library_span(lib, a) <= library_span(lib, b),
    decreases b - a,
{
    if a < b {
        lemma_span_grows(lib, a, b - 1);
    }
}

} // verus!
