//! The seven tetrominoes.
//!
//! A shape in one rotation state is a 4x4 mask of sixteen bits, read in
//! rows from the top left: the highest bit is the top-left cell. Each piece
//! type owns a table of four masks, one per rotation state; a type with
//! fewer distinct states repeats them. A piece is a type, one mask of its
//! table and the position of the mask's top-left corner on the board.

use crate::bits::bit16;
use crate::grid::{lemma_select, lemma_select_split, select};
use vstd::prelude::*;

verus! {

/// The seven shapes.
#[derive(Clone, Copy, PartialEq, Eq, Structural, PartialOrd, Ord, Hash, Debug)]
pub enum PieceType {
    I,
    O,
    J,
    L,
    S,
    Z,
    T,
}

/// The two directions of rotation: clockwise and counter-clockwise.
#[derive(Clone, Copy, PartialEq, Eq, Structural, Hash, Debug)]
pub enum RotateDir {
    Cw,
    Ccw,
}

/// A piece: its type, the mask of its rotation state, and the row and
/// column of the top-left corner of the mask.
#[derive(Clone, Copy, PartialEq, Eq, PartialOrd, Ord, Hash, Debug)]
pub struct Piece {
    pub type_: PieceType,
    pub grid: u16,
    pub pos: (isize, isize),
}

/// Whether the mask holds the cell with reading index `n`, 0 to 15.
pub open spec fn mask_holds(mask: u16, n: int) -> bool {
    bit16(mask, (15 - n) as u16)
}

/// The reading indices of the cells of a mask, in increasing order.
pub open spec fn mask_cells(mask: u16) -> Seq<int> {
    select(0, 16, |n: int| mask_holds(mask, n))
}

/// The number of set bits of a mask.
pub open spec fn popcount16(x: u16) -> int {
    ((x >> 0) & 1) + ((x >> 1) & 1) + ((x >> 2) & 1) + ((x >> 3) & 1)
        + ((x >> 4) & 1) + ((x >> 5) & 1) + ((x >> 6) & 1) + ((x >> 7) & 1)
        + ((x >> 8) & 1) + ((x >> 9) & 1) + ((x >> 10) & 1) + ((x >> 11) & 1)
        + ((x >> 12) & 1) + ((x >> 13) & 1) + ((x >> 14) & 1) + ((x >> 15) & 1)
}

/// A bit shifted down to the lowest place is one if set and zero if not.
proof fn lemma_bit_value16(x: u16, k: u16)
    by (bit_vector)
    requires
        k < 16,
    ensures
        (x >> k) & 1 == (if bit16(x, k) {
            1u16
        } else {
            0u16
        }),
{
}

/// Extending a selection by one integer adds at most that integer.
proof fn lemma_select_step(hi: int, pred: spec_fn(int) -> bool)
    requires
        0 <= hi,
    ensures
        select(0, hi + 1, pred).len() == select(0, hi, pred).len() + if pred(hi) {
            1int
        } else {
            0int
        },
{
}

/// One if `b` holds, zero otherwise.
#[verifier::opaque]
spec fn indicator(b: bool) -> int {
    if b {
        1
    } else {
        0
    }
}

/// The length of a selection from sixteen integers, as a sum.
proof fn lemma_select_sixteen(pred: spec_fn(int) -> bool)
    ensures
        select(0, 16, pred).len() == indicator(pred(0)) + indicator(pred(1)) + indicator(pred(2))
            + indicator(pred(3)) + indicator(pred(4)) + indicator(pred(5)) + indicator(pred(6))
            + indicator(pred(7)) + indicator(pred(8)) + indicator(pred(9)) + indicator(pred(10))
            + indicator(pred(11)) + indicator(pred(12)) + indicator(pred(13)) + indicator(
            pred(14),
        ) + indicator(pred(15)),
{
    reveal(indicator);
    assert(select(0, 0, pred).len() == 0);
    lemma_select_step(0, pred);
    lemma_select_step(1, pred);
    lemma_select_step(2, pred);
    lemma_select_step(3, pred);
    lemma_select_step(4, pred);
    lemma_select_step(5, pred);
    lemma_select_step(6, pred);
    lemma_select_step(7, pred);
    lemma_select_step(8, pred);
    lemma_select_step(9, pred);
    lemma_select_step(10, pred);
    lemma_select_step(11, pred);
    lemma_select_step(12, pred);
    lemma_select_step(13, pred);
    lemma_select_step(14, pred);
    lemma_select_step(15, pred);
}

/// The number of set bits of a mask, as a sum over its bits.
proof fn lemma_popcount_sum(x: u16)
    ensures
        popcount16(x) == indicator(bit16(x, 0)) + indicator(bit16(x, 1)) + indicator(bit16(x, 2))
            + indicator(bit16(x, 3)) + indicator(bit16(x, 4)) + indicator(bit16(x, 5))
            + indicator(bit16(x, 6)) + indicator(bit16(x, 7)) + indicator(bit16(x, 8))
            + indicator(bit16(x, 9)) + indicator(bit16(x, 10)) + indicator(bit16(x, 11))
            + indicator(bit16(x, 12)) + indicator(bit16(x, 13)) + indicator(bit16(x, 14))
            + indicator(bit16(x, 15)),
{
    reveal(indicator);
    lemma_bit_value16(x, 0);
    lemma_bit_value16(x, 1);
    lemma_bit_value16(x, 2);
    lemma_bit_value16(x, 3);
    lemma_bit_value16(x, 4);
    lemma_bit_value16(x, 5);
    lemma_bit_value16(x, 6);
    lemma_bit_value16(x, 7);
    lemma_bit_value16(x, 8);
    lemma_bit_value16(x, 9);
    lemma_bit_value16(x, 10);
    lemma_bit_value16(x, 11);
    lemma_bit_value16(x, 12);
    lemma_bit_value16(x, 13);
    lemma_bit_value16(x, 14);
    lemma_bit_value16(x, 15);
}

/// A mask has as many cells as it has set bits.
proof fn lemma_mask_cells_len(x: u16)
    ensures
        mask_cells(x).len() == popcount16(x),
{
    let pred = |n: int| mask_holds(x, n);
    lemma_select_sixteen(pred);
    lemma_popcount_sum(x);
}

impl PieceType {
    /// The place of the type in the fixed order I, O, J, L, S, Z, T.
    pub open spec fn index(self) -> int {
        match self {
            PieceType::I => 0,
            PieceType::O => 1,
            PieceType::J => 2,
            PieceType::L => 3,
            PieceType::S => 4,
            PieceType::Z => 5,
            PieceType::T => 6,
        }
    }

    /// The rotation table of the type.
    pub open spec fn table(self) -> Seq<u16> {
        match self {
            PieceType::I => seq![0x00f0u16, 0x2222u16, 0x00f0u16, 0x2222u16],
            PieceType::O => seq![0x0660u16, 0x0660u16, 0x0660u16, 0x0660u16],
            PieceType::J => seq![0x0e20u16, 0x44c0u16, 0x8e00u16, 0x6440u16],
            PieceType::L => seq![0x0e80u16, 0xc440u16, 0x2e00u16, 0x4460u16],
            PieceType::S => seq![0x06c0u16, 0x4620u16, 0x06c0u16, 0x4620u16],
            PieceType::Z => seq![0x0c60u16, 0x2640u16, 0x0c60u16, 0x2640u16],
            PieceType::T => seq![0x0e40u16, 0x4c40u16, 0x4e00u16, 0x4640u16],
        }
    }

    /// The number of distinct rotation states of the type.
    pub open spec fn distinct_rotations(self) -> int {
        match self {
            PieceType::I => 2,
            PieceType::O => 1,
            PieceType::J => 4,
            PieceType::L => 4,
            PieceType::S => 2,
            PieceType::Z => 2,
            PieceType::T => 4,
        }
    }

    /// The seven types in their fixed order.
    pub fn list() -> (l: &'static [PieceType; 7])
        ensures
            forall|k: int| 0 <= k < 7 ==> (#[trigger] l@[k]).index() == k,
    {
        &[
            PieceType::I,
            PieceType::O,
            PieceType::J,
            PieceType::L,
            PieceType::S,
            PieceType::Z,
            PieceType::T,
        ]
    }

    /// The four rotation masks of the type, clockwise from the spawn state.
    pub fn grids(&self) -> (g: [u16; 4])
        ensures
            g@ == self.table(),
    {
        let g: [u16; 4] = match self {
            PieceType::I => [
                0b_0000_0000_1111_0000,
                0b_0010_0010_0010_0010,
                0b_0000_0000_1111_0000,
                0b_0010_0010_0010_0010,
            ],
            PieceType::O => [
                0b_0000_0110_0110_0000,
                0b_0000_0110_0110_0000,
                0b_0000_0110_0110_0000,
                0b_0000_0110_0110_0000,
            ],
            PieceType::J => [
                0b_0000_1110_0010_0000,
                0b_0100_0100_1100_0000,
                0b_1000_1110_0000_0000,
                0b_0110_0100_0100_0000,
            ],
            PieceType::L => [
                0b_0000_1110_1000_0000,
                0b_1100_0100_0100_0000,
                0b_0010_1110_0000_0000,
                0b_0100_0100_0110_0000,
            ],
            PieceType::S => [
                0b_0000_0110_1100_0000,
                0b_0100_0110_0010_0000,
                0b_0000_0110_1100_0000,
                0b_0100_0110_0010_0000,
            ],
            PieceType::Z => [
                0b_0000_1100_0110_0000,
                0b_0010_0110_0100_0000,
                0b_0000_1100_0110_0000,
                0b_0010_0110_0100_0000,
            ],
            PieceType::T => [
                0b_0000_1110_0100_0000,
                0b_0100_1100_0100_0000,
                0b_0100_1110_0000_0000,
                0b_0100_0110_0100_0000,
            ],
        };
        g
    }
}

/// Every mask of every rotation table has exactly four cells.
pub proof fn lemma_table_masks_have_four_cells(t: PieceType, k: int)
    requires
        0 <= k < 4,
    ensures
        mask_cells(t.table()[k]).len() == 4,
{
    lemma_mask_cells_len(t.table()[k]);
    assert(popcount16(0x00f0) == 4 && popcount16(0x2222) == 4 && popcount16(0x0660) == 4
        && popcount16(0x0e20) == 4 && popcount16(0x44c0) == 4 && popcount16(0x8e00) == 4
        && popcount16(0x6440) == 4 && popcount16(0x0e80) == 4 && popcount16(0xc440) == 4
        && popcount16(0x2e00) == 4 && popcount16(0x4460) == 4 && popcount16(0x06c0) == 4
        && popcount16(0x4620) == 4 && popcount16(0x0c60) == 4 && popcount16(0x2640) == 4
        && popcount16(0x0e40) == 4 && popcount16(0x4c40) == 4 && popcount16(0x4e00) == 4
        && popcount16(0x4640) == 4) by (bit_vector);
}

/// The first place of `grid` in `grids`, or 4 if it does not occur.
pub open spec fn first_index_of(grids: Seq<u16>, grid: u16) -> int {
    if grids[0] == grid {
        0
    } else if grids[1] == grid {
        1
    } else if grids[2] == grid {
        2
    } else if grids[3] == grid {
        3
    } else {
        4
    }
}

/// The first place of `grid` among the four `grids`.
pub fn find_grid_i(grids: [u16; 4], grid: u16) -> (i: usize)
    requires
        first_index_of(grids@, grid) < 4,
    ensures
        i == first_index_of(grids@, grid),
{
    let mut i: usize = 0;
    while i < 3 && grids[i] != grid
        invariant
            i <= 3,
            first_index_of(grids@, grid) < 4,
            forall|k: int| 0 <= k < i ==> grids@[k] != grid,
        decreases 3 - i,
    {
        i += 1;
    }
    i
}

impl Piece {
    /// The mask is one of the rotation states of the type.
    pub open spec fn in_table(&self) -> bool {
        first_index_of(self.type_.table(), self.grid) < 4
    }

    /// The mask has exactly four cells.
    pub open spec fn has_four_cells(&self) -> bool {
        mask_cells(self.grid).len() == 4
    }

    /// The four cells, and the cells one column to either side, have
    /// coordinates that the machine can hold.
    pub open spec fn fits_machine(&self) -> bool {
        &&& self.pos.0 + 3 <= isize::MAX
        &&& isize::MIN < self.pos.1
        &&& self.pos.1 + 4 <= isize::MAX
    }

    /// A piece in one of the rotation states of its type, at a position
    /// from which it can be moved one column to either side.
    pub open spec fn wf(&self) -> bool {
        self.in_table() && self.fits_machine()
    }

    /// The board positions of the four cells, in reading order.
    pub open spec fn cells(&self) -> Seq<(int, int)> {
        Seq::new(
            4,
            |k: int| (self.pos.0 + mask_cells(self.grid)[k] / 4, self.pos.1 + mask_cells(
                self.grid,
            )[k] % 4),
        )
    }

    /// The piece after one rotation step in direction `dir`.
    pub open spec fn rotated(&self, dir: RotateDir) -> Piece {
        let offset: int = match dir {
            RotateDir::Cw => 1,
            RotateDir::Ccw => 3,
        };
        let table = self.type_.table();
        Piece {
            type_: self.type_,
            grid: table[(first_index_of(table, self.grid) + offset) % 4],
            pos: self.pos,
        }
    }

    /// The piece moved by `dj` columns.
    pub open spec fn shifted(&self, dj: int) -> Piece {
        Piece { type_: self.type_, grid: self.grid, pos: (self.pos.0, (self.pos.1 + dj) as isize) }
    }

    /// A piece whose mask is in the table of its type has four cells, and
    /// so has each of its rotations.
    pub proof fn lemma_wf_cells(&self)
        requires
            self.in_table(),
        ensures
            self.has_four_cells(),
            self.rotated(RotateDir::Cw).in_table(),
            self.rotated(RotateDir::Ccw).in_table(),
            self.rotated(RotateDir::Cw).has_four_cells(),
            self.rotated(RotateDir::Ccw).has_four_cells(),
    {
        let table = self.type_.table();
        let i = first_index_of(table, self.grid);
        lemma_table_masks_have_four_cells(self.type_, i);
        lemma_table_masks_have_four_cells(self.type_, (i + 1) % 4);
        lemma_table_masks_have_four_cells(self.type_, (i + 3) % 4);
    }

    /// The cells of a mask lie in its 4x4 square and are pairwise distinct.
    pub proof fn lemma_cells(&self)
        requires
            self.has_four_cells(),
        ensures
            self.cells().len() == 4,
            forall|k: int|
                0 <= k < 4 ==> self.pos.0 <= (#[trigger] self.cells()[k]).0 <= self.pos.0 + 3
                    && self.pos.1 <= self.cells()[k].1 <= self.pos.1 + 3,
            forall|a: int, b: int| 0 <= a < b < 4 ==> self.cells()[a] != self.cells()[b],
    {
        let pred = |n: int| mask_holds(self.grid, n);
        lemma_select(0, 16, pred);
        let m = mask_cells(self.grid);
        assert forall|k: int| 0 <= k < 4 implies 0 <= #[trigger] m[k] < 16 by {
            assert(m.contains(m[k]));
        }
    }

    /// Whether the piece is in one of the rotation states of its type, at
    /// a position from which it can be moved one column to either side.
    pub fn is_well_formed(&self) -> (b: bool)
        ensures
            b == self.wf(),
    {
        let grids = self.type_.grids();
        let in_table = grids[0] == self.grid || grids[1] == self.grid || grids[2] == self.grid
            || grids[3] == self.grid;
        in_table && self.pos.0 <= isize::MAX - 3 && self.pos.1 > isize::MIN && self.pos.1
            <= isize::MAX - 4
    }

    /// The number of distinct rotation states of the piece's type.
    pub fn num_rotations(&self) -> (n: usize)
        ensures
            n == self.type_.distinct_rotations(),
    {
        match self.type_ {
            PieceType::I => 2,
            PieceType::O => 1,
            PieceType::J => 4,
            PieceType::L => 4,
            PieceType::S => 2,
            PieceType::Z => 2,
            PieceType::T => 4,
        }
    }

    /// Turns the piece to the next rotation state of its type in direction
    /// `dir`, by looking its mask up in the type's table.
    pub fn rotate(&mut self, dir: RotateDir)
        requires
            old(self).in_table(),
        ensures
            *final(self) == old(self).rotated(dir),
    {
        let offset: usize = match dir {
            RotateDir::Cw => 1,
            RotateDir::Ccw => 3,
        };

        let grids = self.type_.grids();
        let grid_i = find_grid_i(grids, self.grid);

        self.grid = grids[(grid_i + offset) % 4];
    }

    /// Whether bit `4 * i + j` of the mask is set.
    pub fn at(&self, i: usize, j: usize) -> (b: bool)
        requires
            4 * i + j < 16,
        ensures
            b == bit16(self.grid, (4 * i + j) as u16),
    {
        let k: u16 = (4 * i + j) as u16;
        self.grid & (1u16 << k) != 0
    }

    /// The board positions of the four cells, in reading order.
    pub fn cell_positions(&self) -> (res: [(isize, isize); 4])
        requires
            self.has_four_cells(),
            self.pos.0 + 3 <= isize::MAX,
            self.pos.1 + 3 <= isize::MAX,
        ensures
            res@.len() == 4,
            forall|k: int|
                0 <= k < 4 ==> ((#[trigger] res@[k]).0 as int, res@[k].1 as int) == self.cells()[k],
    {
        let mut res: [(isize, isize); 4] = [(0, 0);4];
        let mut res_i: usize = 0;
        let mut i: isize = 0;
        let ghost pred = |n: int| mask_holds(self.grid, n);

        while res_i < 4
            invariant
                self.has_four_cells(),
                self.pos.0 + 3 <= isize::MAX,
                self.pos.1 + 3 <= isize::MAX,
                pred == |n: int| mask_holds(self.grid, n),
                0 <= i <= 16,
                res_i <= 4,
                res_i == select(0, i as int, pred).len(),
                forall|k: int|
                    0 <= k < res_i ==> ((#[trigger] res@[k]).0 as int, res@[k].1 as int)
                        == self.cells()[k],
            decreases 16 - i,
        {
            proof {
                lemma_select_split(0, i as int, i + 1, pred);
                lemma_select_split(0, i + 1, 16, pred);
            }
            let k: u16 = (15 - i) as u16;
            let mask: u16 = 1u16 << k;

            if self.grid & mask != 0 {
                res[res_i] = (self.pos.0 + i / 4, self.pos.1 + i % 4);
                res_i += 1;
            }
            i += 1;
        }
        res
    }
}

} // verus!
