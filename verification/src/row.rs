//! One row of the board: ten cells packed into the low bits of a `u16`,
//! the left-most cell in the highest of the ten bits.

use crate::bits::{bit16, lemma_clear16, lemma_flip16, lemma_full16, lemma_set16, lemma_zero16};
use crate::grid::{empty_row, row_full};
use vstd::prelude::*;

verus! {

/// One row of the board.
#[derive(Clone, Copy)]
pub struct BoardRow(pub(crate) u16);

impl View for BoardRow {
    type V = Seq<bool>;

    /// The ten cells from left to right.
    closed spec fn view(&self) -> Seq<bool> {
        Seq::new(10, |j: int| row_cell(self.0, j))
    }
}

/// Cell `j` of a row mask, counted from the left.
spec fn row_cell(x: u16, j: int) -> bool {
    bit16(x, (9 - j) as u16)
}

impl Default for BoardRow {
    /// The empty row.
    fn default() -> (r: BoardRow)
        ensures
            r.wf(),
            r@ == empty_row(),
    {
        let r = BoardRow(0);
        proof {
            assert forall|j: int| 0 <= j < 10 implies !#[trigger] row_cell(0, j) by {
                lemma_zero16((9 - j) as u16);
            }
        }
        r
    }
}

impl BoardRow {
    /// Only the ten low bits are in use.
    pub closed spec fn inv(&self) -> bool {
        self.0 < 1024
    }

    /// The mask is sound and the row has ten cells.
    pub open spec fn wf(&self) -> bool {
        self.inv() && self@.len() == 10
    }

    /// Whether all ten cells are occupied.
    pub fn full(&self) -> (b: bool)
        requires
            self.wf(),
        ensures
            b == row_full(self@),
    {
        proof {
            lemma_full16(self.0);
            if row_full(self@) {
                assert(self@[9] && self@[8] && self@[7] && self@[6] && self@[5]);
                assert(self@[4] && self@[3] && self@[2] && self@[1] && self@[0]);
            }
        }
        self.0 == 0b11111_11111
    }

    /// Whether cell `j` is occupied.
    pub fn get(&self, j: usize) -> (b: bool)
        requires
            j < 10,
        ensures
            b == self@[j as int],
    {
        let k: u16 = (9 - j) as u16;
        (self.0 & (1u16 << k)) != 0
    }

    /// Makes cell `j` occupied or empty.
    pub fn set(&mut self, j: usize, value: bool)
        requires
            old(self).wf(),
            j < 10,
        ensures
            final(self).wf(),
            final(self)@ == old(self)@.update(j as int, value),
    {
        let k: u16 = (9 - j) as u16;
        let bit_mask: u16 = 1u16 << k;
        proof {
            assert forall|m: u16| m < 10 implies bit16(self.0 | bit_mask, m) == (m == k || bit16(
                self.0,
                m,
            )) && bit16(self.0 & !bit_mask, m) == (m != k && bit16(self.0, m)) by {
                lemma_set16(self.0, k, m);
                lemma_clear16(self.0, k, m);
            }
            lemma_set16(self.0, k, k);
            lemma_clear16(self.0, k, k);
        }
        if value {
            self.0 |= bit_mask;
        } else {
            self.0 &= !bit_mask;
        }
    }

    /// Inverts cell `j`.
    pub fn flip(&mut self, j: usize)
        requires
            old(self).wf(),
            j < 10,
        ensures
            final(self).wf(),
            final(self)@ == old(self)@.update(j as int, !old(self)@[j as int]),
    {
        let k: u16 = (9 - j) as u16;
        proof {
            assert forall|m: u16| m < 10 implies bit16(self.0 ^ (1u16 << k), m) == (if m == k {
                !bit16(self.0, m)
            } else {
                bit16(self.0, m)
            }) by {
                lemma_flip16(self.0, k, m);
            }
            lemma_flip16(self.0, k, k);
        }
        self.0 ^= 1u16 << k;
    }
}

} // verus!
