//! One column of the board: twenty cells packed into the low bits of a
//! `u32`, the top cell in the highest of the twenty bits, so that the
//! height of the stack is one count of leading zeros away.

use crate::bits::{
    bit32, lemma_bit_forms32, lemma_clear32, lemma_drop_bit32, lemma_flip32,
    lemma_high_bits_clear32, lemma_low_ones32, lemma_set32, lemma_zero32,
};
use crate::grid::{
    column_height, column_top, in_column, is_covered_rest, is_overhang, lemma_column_top,
    lemma_column_top_is, lemma_select_none, lemma_select_split, overhang_rows, positions,
    rest_rows, row_numbers, select,
};
use vstd::prelude::*;

verus! {

/// One column of the board.
#[derive(Clone, Copy)]
pub struct BoardCol(pub(crate) u32);

/// Cell `i` of a column mask, counted from the top.
spec fn col_cell(x: u32, i: int) -> bool {
    bit32(x, (19 - i) as u32)
}

impl View for BoardCol {
    type V = Seq<bool>;

    /// The twenty cells from the top down.
    closed spec fn view(&self) -> Seq<bool> {
        Seq::new(20, |i: int| col_cell(self.0, i))
    }
}

impl Default for BoardCol {
    /// The empty column.
    fn default() -> (c: BoardCol)
        ensures
            c.wf(),
            c@ == Seq::new(20, |i: int| false),
    {
        let c = BoardCol(0);
        proof {
            assert forall|i: int| 0 <= i < 20 implies !#[trigger] col_cell(0, i) by {
                lemma_zero32((19 - i) as u32);
            }
        }
        c
    }
}

impl BoardCol {
    /// Only the twenty low bits are in use.
    pub closed spec fn inv(&self) -> bool {
        self.0 < 0x10_0000
    }

    /// The mask is sound and the column has twenty cells.
    pub open spec fn wf(&self) -> bool {
        self.inv() && self@.len() == 20
    }

    /// The bits of the stack height and below are all set: the column has
    /// no empty cell under its top.
    proof fn lemma_solid(&self, h: u32)
        requires
            self.wf(),
            h <= 20,
            self.0 == ((1u32 << h) - 1) as u32,
        ensures
            forall|i: int| 20 - h <= i < 20 ==> #[trigger] self@[i],
    {
        assert forall|i: int| 20 - h <= i < 20 implies #[trigger] self@[i] by {
            lemma_low_ones32(self.0, h, (19 - i) as u32);
        }
    }

    /// Removes cell `i`: the cells above it move down by one and an empty
    /// cell enters at the top.
    pub fn remove_row(&mut self, i: usize)
        requires
            old(self).wf(),
            i < 20,
        ensures
            final(self).wf(),
            final(self)@ == seq![false] + old(self)@.remove(i as int),
    {
        let k: u32 = (19 - i) as u32;
        let ghost keep: u32 = ((1u32 << k) - 1u32) as u32;
        let ghost y: u32 = !keep & (self.0 >> 1u32) | keep & self.0;
        proof {
            assert((1u32 << k) >= 1) by (bit_vector)
                requires
                    k < 20,
            ;
            assert forall|r: int| 0 <= r < 20 implies #[trigger] col_cell(y, r) == (seq![false]
                + self@.remove(i as int))[r] by {
                lemma_drop_bit32(self.0, k, (19 - r) as u32);
                if r == 0 {
                    lemma_high_bits_clear32(self.0, 20);
                }
            }
            lemma_drop_bit32(self.0, k, 0);
        }
        let keep_mask: u32 = (1u32 << k) - 1;
        let shift: u32 = self.0 >> 1;
        self.0 = !keep_mask & shift | keep_mask & self.0;
    }

    /// The height of the stack.
    pub fn height(&self) -> (h: usize)
        requires
            self.wf(),
        ensures
            h == column_height(self@),
            h <= 20,
    {
        let lz: u32 = self.0.leading_zeros();
        proof {
            let h: int = 32 - lz;
            if lz < 32 {
                let k: u32 = (31 - lz) as u32;
                lemma_bit_forms32(self.0, k);
                if k >= 20 {
                    lemma_high_bits_clear32(self.0, k);
                }
            }
            assert forall|i: int| 0 <= i < 20 - h implies !self@[i] by {
                let k: u32 = (19 - i) as u32;
                lemma_bit_forms32(self.0, k);
            }
            lemma_column_top_is(self@, 20 - h);
        }
        (32 - lz) as usize
    }

    /// Whether cell `i` is occupied.
    pub fn get(&self, i: usize) -> (b: bool)
        requires
            i < 20,
        ensures
            b == self@[i as int],
    {
        let k: u32 = (19 - i) as u32;
        (self.0 & (1u32 << k)) != 0
    }

    /// Whether the cell above cell `i` is occupied; the cell above the top
    /// cell reads as empty, and `i` may be 20, which asks for the bottom
    /// cell.
    pub fn get_minus1(&self, i: usize) -> (b: bool)
        requires
            self.wf(),
            i <= 20,
        ensures
            b == (i >= 1 && self@[i - 1]),
    {
        let k: u32 = (20 - i) as u32;
        proof {
            if i == 0 {
                lemma_high_bits_clear32(self.0, 20);
            }
        }
        (self.0 & (1u32 << k)) != 0
    }

    /// Makes cell `i` occupied or empty.
    pub fn set(&mut self, i: usize, value: bool)
        requires
            old(self).wf(),
            i < 20,
        ensures
            final(self).wf(),
            final(self)@ == old(self)@.update(i as int, value),
    {
        let k: u32 = (19 - i) as u32;
        let mask: u32 = 1u32 << k;
        proof {
            assert forall|m: u32| m < 20 implies bit32(self.0 | mask, m) == (m == k || bit32(
                self.0,
                m,
            )) && bit32(self.0 & !mask, m) == (m != k && bit32(self.0, m)) by {
                lemma_set32(self.0, k, m);
                lemma_clear32(self.0, k, m);
            }
            lemma_set32(self.0, k, k);
            lemma_clear32(self.0, k, k);
        }
        if value {
            self.0 |= mask;
        } else {
            self.0 &= !mask;
        }
    }

    /// Inverts cell `i`.
    pub fn flip(&mut self, i: usize)
        requires
            old(self).wf(),
            i < 20,
        ensures
            final(self).wf(),
            final(self)@ == old(self)@.update(i as int, !old(self)@[i as int]),
    {
        let k: u32 = (19 - i) as u32;
        proof {
            assert forall|m: u32| m < 20 implies bit32(self.0 ^ (1u32 << k), m) == (if m == k {
                !bit32(self.0, m)
            } else {
                bit32(self.0, m)
            }) by {
                lemma_flip32(self.0, k, m);
            }
            lemma_flip32(self.0, k, k);
        }
        self.0 ^= 1u32 << k;
    }

    /// The positions in this column, numbered `j`, on which a piece can
    /// come to rest.
    pub fn find_rest_positions(&self, j: isize) -> (res: Vec<(isize, isize)>)
        requires
            self.wf(),
        ensures
            positions(res@) == in_column(rest_rows(self@), j as int),
    {
        let height = self.height() as isize;
        let ghost c = self@;
        let ghost pred = |i: int| is_covered_rest(c, i);

        let mut res: Vec<(isize, isize)> = vec![];
        if height != 20 {
            res.push((19 - height, j));
        }
        let ghost above = if column_top(c) == 0 {
            Seq::<int>::empty()
        } else {
            Seq::<int>::empty().push(column_top(c) - 1)
        };

        let y: u32 = 1u32 << (height as u32);
        assert(y >= 1) by (bit_vector)
            requires
                y == 1u32 << (height as u32),
                height as u32 <= 20,
        ;
        let full_otherwise: u32 = y - 1;

        if self.0 == full_otherwise {
            proof {
                self.lemma_solid(height as u32);
                lemma_select_none(column_top(c) + 1, 20, pred);
            }
            return res;
        }
        let mut i: isize = 21 - height;
        while i < 20
            invariant
                self.wf(),
                c == self@,
                pred == |i: int| is_covered_rest(c, i),
                height == column_height(c),
                0 <= height <= 20,
                21 - height <= i,
                i <= 20 || height == 0,
                positions(res@) == in_column(
                    above + select(column_top(c) + 1, i as int, pred),
                    j as int,
                ),
            decreases 20 - i,
        {
            let ghost before = above + select(column_top(c) + 1, i as int, pred);
            if self.get(i as usize) == false && (i == 19 || self.get((i + 1) as usize)) == true {
                res.push((i, j));
                assert(in_column(before.push(i as int), j as int) =~= in_column(
                    before,
                    j as int,
                ).push((i as int, j as int)));
            }
            i += 1;
        }
        proof {
            if height == 0 {
                lemma_select_none(column_top(c) + 1, i as int, pred);
            }
        }
        res
    }

    /// The rows of this column that are overhangs: empty cells directly
    /// under an occupied one.
    pub fn overhangs(&self) -> (res: Vec<isize>)
        requires
            self.wf(),
        ensures
            row_numbers(res@) == overhang_rows(self@),
    {
        let height = self.height() as isize;
        let ghost c = self@;
        let ghost pred = |i: int| is_overhang(c, i);
        let ghost start: int = if height == 0 {
            20
        } else {
            21 - height
        };
        proof {
            lemma_column_top(c);
            lemma_select_split(1, start, 20, pred);
            lemma_select_none(1, start, pred);
        }

        let mut res: Vec<isize> = vec![];

        let y: u32 = 1u32 << (height as u32);
        assert(y >= 1) by (bit_vector)
            requires
                y == 1u32 << (height as u32),
                height as u32 <= 20,
        ;
        let full_otherwise: u32 = y - 1;

        if self.0 == full_otherwise {
            proof {
                self.lemma_solid(height as u32);
                lemma_select_none(start, 20, pred);
            }
            return res;
        }
        assert(height > 0) by {
            if height == 0 {
                assert(y == 1u32) by (bit_vector)
                    requires
                        y == 1u32 << 0u32,
                ;
                assert forall|i: int| 0 <= i < 20 implies !#[trigger] col_cell(self.0, i) by {
                    assert(!c[i]);
                }
                assert(self.0 == 0u32) by {
                    Self::lemma_no_cells(self.0);
                }
            }
        }
        let mut i: isize = 21 - height;
        while i < 20
            invariant
                self.wf(),
                c == self@,
                pred == |i: int| is_overhang(c, i),
                1 <= height <= 20,
                start == 21 - height,
                start <= i <= 20,
                row_numbers(res@) == select(start, i as int, pred),
            decreases 20 - i,
        {
            if self.get(i as usize) == false && self.get_minus1(i as usize) == true {
                res.push(i);
            }
            i += 1;
        }
        res
    }

    /// A twenty-bit mask with no bit set among its twenty is zero.
    proof fn lemma_no_cells(x: u32)
        requires
            x < 0x10_0000,
            forall|i: int| 0 <= i < 20 ==> !#[trigger] col_cell(x, i),
        ensures
            x == 0,
    {
        assert(!col_cell(x, 0) && !col_cell(x, 1) && !col_cell(x, 2) && !col_cell(x, 3)
            && !col_cell(x, 4) && !col_cell(x, 5) && !col_cell(x, 6) && !col_cell(x, 7)
            && !col_cell(x, 8) && !col_cell(x, 9) && !col_cell(x, 10) && !col_cell(x, 11)
            && !col_cell(x, 12) && !col_cell(x, 13) && !col_cell(x, 14) && !col_cell(x, 15)
            && !col_cell(x, 16) && !col_cell(x, 17) && !col_cell(x, 18) && !col_cell(x, 19));
        assert(x == 0) by (bit_vector)
            requires
                x < 0x10_0000,
                !bit32(x, 0) && !bit32(x, 1) && !bit32(x, 2) && !bit32(x, 3) && !bit32(x, 4)
                    && !bit32(x, 5) && !bit32(x, 6) && !bit32(x, 7) && !bit32(x, 8) && !bit32(
                    x,
                    9,
                ) && !bit32(x, 10) && !bit32(x, 11) && !bit32(x, 12) && !bit32(x, 13) && !bit32(
                    x,
                    14,
                ) && !bit32(x, 15) && !bit32(x, 16) && !bit32(x, 17) && !bit32(x, 18) && !bit32(
                    x,
                    19,
                ),
        ;
    }

    /// The row of the top-most occupied cell; 20, the row under the floor,
    /// if the column is empty.
    pub fn top(&self) -> (t: usize)
        requires
            self.wf(),
        ensures
            t == column_top(self@),
            t <= 20,
    {
        20 - self.height()
    }
}

} // verus!
