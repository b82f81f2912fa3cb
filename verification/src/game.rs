//! One simulated game: a board, the board before the last step, the
//! source of incoming pieces and the depth of the search that plays it.
//!
//! A step has two halves. The first draws the incoming piece type; the
//! second commits the board that the player chose among the choices that
//! the type offers, or ends the game if it offers none. Which choice is
//! best is for the caller to say.

use crate::board::{Board, BoardView};
use crate::generator::{drawn, PieceTypeGenerator};
use crate::choices::{after_placing, fitting, lemma_rested_grid_clears_at_most_four};
use crate::grid::{empty_grid, full_row_count, lemma_empty_grid_has_no_full_row};
use crate::piece::PieceType;
use rand::rngs::StdRng;
use rand::{Rng, SeedableRng};
use vstd::prelude::*;

verus! {

/// The generator `StdRng` of the crate `rand`, held as it is: nothing of
/// its state is known here.
#[verifier::external_type_specification]
#[verifier::external_body]
pub struct ExStdRng(StdRng);

/// Calls `StdRng::seed_from_u64` of the crate `rand`. Nothing is claimed
/// of the generator that it returns.
#[verifier::external_body]
fn seeded_rng(seed: u64) -> (rng: StdRng) {
    StdRng::seed_from_u64(seed)
}

/// Calls `Rng::gen` of the crate `rand` for a `u32`. Nothing is claimed of
/// the number that it returns.
#[verifier::external_body]
fn next_random(rng: &mut StdRng) -> (r: u32) {
    rng.gen()
}

/// One simulated game.
pub struct Game {
    pub(crate) board: Board,
    pub(crate) last_board: Board,
    pub(crate) piece_type_generator: PieceTypeGenerator,
    pub(crate) rng: StdRng,
    pub(crate) search_depth: usize,
}

/// The mathematical content of a game.
pub struct GameView {
    /// The board in play.
    pub board: BoardView,
    /// The board as it was before the last step.
    pub last_board: BoardView,
    /// The place of the piece type drawn last; `0xff` before the first.
    pub last_type: u8,
    /// How many pieces the search looks ahead.
    pub search_depth: nat,
}

impl View for Game {
    type V = GameView;

    /// The views of the two boards, the type drawn last and the depth.
    closed spec fn view(&self) -> GameView {
        GameView {
            board: self.board@,
            last_board: self.last_board@,
            last_type: self.piece_type_generator.last,
            search_depth: self.search_depth as nat,
        }
    }
}

impl Game {
    /// Both boards are sound.
    pub closed spec fn inv(&self) -> bool {
        self.board.wf() && self.last_board.wf()
    }

    /// Both boards are sound, and the board in play has no full row.
    pub open spec fn wf(&self) -> bool {
        &&& self.inv()
        &&& self@.board.wf()
        &&& self@.last_board.wf()
        &&& full_row_count(self@.board.grid) == 0
    }

    /// A game on an empty board that ends after `lines_cleared_max`
    /// cleared rows, with its pieces drawn from a generator seeded with
    /// `seed`.
    pub fn new(seed: u64, lines_cleared_max: usize, search_depth: usize) -> (game: Game)
        ensures
            game.wf(),
            game@ == (GameView {
                board: BoardView::fresh(empty_grid(), lines_cleared_max as nat),
                last_board: BoardView::fresh(empty_grid(), lines_cleared_max as nat),
                last_type: 0xff,
                search_depth: search_depth as nat,
            }),
    {
        proof {
            lemma_empty_grid_has_no_full_row();
        }
        Game {
            board: Board::with_lines_cleared_max(lines_cleared_max),
            last_board: Board::with_lines_cleared_max(lines_cleared_max),
            piece_type_generator: PieceTypeGenerator::new(),
            rng: seeded_rng(seed),
            search_depth,
        }
    }

    /// The board in play.
    pub fn board(&self) -> (b: &Board)
        requires
            self.wf(),
        ensures
            b.wf(),
            b@ == self@.board,
    {
        &self.board
    }

    /// The board as it was before the last step.
    pub fn last_board(&self) -> (b: &Board)
        requires
            self.wf(),
        ensures
            b.wf(),
            b@ == self@.last_board,
    {
        &self.last_board
    }

    /// How many pieces the search looks ahead.
    pub fn search_depth(&self) -> (d: usize)
        ensures
            d == self@.search_depth,
    {
        self.search_depth
    }

    /// The first half of a step: remembers the board, and draws the next
    /// piece type unless the game has ended.
    pub fn next_piece(&mut self) -> (t: Option<PieceType>)
        requires
            old(self).wf(),
        ensures
            final(self).wf(),
            final(self)@.board == old(self)@.board,
            final(self)@.last_board == old(self)@.board,
            final(self)@.search_depth == old(self)@.search_depth,
            t is None <==> old(self)@.board.finished,
            t is None ==> final(self)@.last_type == old(self)@.last_type,
            t matches Some(pt) ==> final(self)@.last_type == pt.index() && exists|rand: u32|
                pt.index() == #[trigger] drawn(old(self)@.last_type, rand),
    {
        self.last_board = self.board.clone();

        if self.board.finished() {
            return None;
        }
        let rand = next_random(&mut self.rng);
        let piece_type = self.piece_type_generator.gen(rand);
        assert(piece_type.index() == drawn(old(self)@.last_type, rand));
        Some(piece_type)
    }

    /// The boards that the incoming piece type offers on the board in
    /// play: one for each accepted placement, in the order of placements.
    pub fn choices(&self, piece_type: PieceType) -> (res: Vec<Board>)
        requires
            self.wf(),
            self@.board.counters_fit(),
        ensures
            res@.len() == fitting(self@.board.grid, piece_type).len(),
            forall|k: int|
                0 <= k < res@.len() ==> (#[trigger] res@[k]).wf() && res@[k]@ == after_placing(
                    self@.board,
                    fitting(self@.board.grid, piece_type)[k],
                ) && full_row_count(res@[k]@.grid) == 0,
    {
        proof {
            lemma_rested_grid_clears_at_most_four(self@.board.grid, piece_type);
        }
        self.board.find_choices(piece_type)
    }

    /// The second half of a step: the chosen board becomes the board in
    /// play; with no choice the game ends.
    pub fn commit(&mut self, choice: Option<Board>)
        requires
            old(self).wf(),
            choice matches Some(b) ==> b.wf() && full_row_count(b@.grid) == 0,
        ensures
            final(self).wf(),
            final(self)@.last_board == old(self)@.last_board,
            final(self)@.last_type == old(self)@.last_type,
            final(self)@.search_depth == old(self)@.search_depth,
            final(self)@.board == match choice {
                Some(b) => b@,
                None => (BoardView { finished: true, ..old(self)@.board }),
            },
    {
        match choice {
            Some(next_board) => {
                self.board = next_board;
            },
            None => {
                self.board.mark_finished();
            },
        }
    }
}

} // verus!
