//! The sequence of incoming piece types.
//!
//! Each call turns one random number into a piece type. The number holds
//! two draws: the first is used unless it repeats the type handed out
//! last, in which case the second is used whatever it is.

use crate::piece::PieceType;
use vstd::prelude::*;

verus! {

/// The source of incoming piece types.
pub struct PieceTypeGenerator {
    /// The place, in the fixed order of types, of the type handed out
    /// last; `0xff` before the first call.
    pub last: u8,
}

/// The first draw held by a random number.
pub open spec fn first_draw(rand: u32) -> int {
    rand as int % 7
}

/// The second draw held by a random number.
pub open spec fn second_draw(rand: u32) -> int {
    (rand as int / 8) % 7
}

/// The place of the type that a generator which handed out `last` makes
/// of `rand`.
pub open spec fn drawn(last: u8, rand: u32) -> int {
    if first_draw(rand) != last {
        first_draw(rand)
    } else {
        second_draw(rand)
    }
}

/// Unless both draws repeat the last type, the new type differs from it.
pub proof fn lemma_no_immediate_repeat(last: u8, rand: u32)
    requires
        first_draw(rand) != last || second_draw(rand) != last,
    ensures
        drawn(last, rand) != last,
{
}

impl PieceTypeGenerator {
    /// A generator that has handed out nothing yet.
    pub fn new() -> (g: PieceTypeGenerator)
        ensures
            g.last == 0xff,
    {
        Self { last: 0xff }
    }

    /// The next piece type, made of the random number `rand`.
    pub fn gen(&mut self, rand: u32) -> (t: PieceType)
        ensures
            t.index() == drawn(old(self).last, rand),
            final(self).last == t.index(),
            first_draw(rand) != old(self).last || second_draw(rand) != old(self).last
                ==> t.index() != old(self).last,
    {
        let mut rand = rand;
        let rand0: u32 = rand % 0b111;
        assert(rand >> 3 == rand / 8) by (bit_vector);
        rand >>= 3;

        if rand0 != 7 && rand0 != self.last as u32 {
            self.last = rand0 as u8;
            return PieceType::list()[rand0 as usize];
        }
        let res: u32 = rand % 7;
        self.last = res as u8;
        PieceType::list()[res as usize]
    }
}

} // verus!
