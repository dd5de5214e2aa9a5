//! A bitboard that counts, square by square, how many times a bit was added.
use vstd::prelude::*;
use crate::bitboard::BitBoard;

verus! {

/// What is carried into board `i` when `rhs` is added to `boards`: `rhs`
/// itself into the first board, then the bits the previous board already held.
pub open spec fn add_carry(boards: Seq<u128>, rhs: u128, i: int) -> u128
    decreases i,
{
    if i <= 0 { rhs } else { boards[i - 1] & add_carry(boards, rhs, i - 1) }
}

/// What is still to be taken out at board `i` when `rhs` is subtracted: the
/// bits of `rhs` that no earlier board held.
pub open spec fn sub_carry(boards: Seq<u128>, rhs: u128, i: int) -> u128
    decreases i,
{
    if i <= 0 { rhs } else { add_or_clear(boards[i - 1], sub_carry(boards, rhs, i - 1)) }
}

/// The bits of `c` that `b` does not hold.
pub open spec fn add_or_clear(b: u128, c: u128) -> u128 {
    c & !b
}

/// Ten bitboards laid over one another: a square counts once for each board that holds it.
#[derive(Clone, Copy)]
pub struct SuperPosition {
    boards: [BitBoard; 10],
}

impl SuperPosition {
    /// The bits of each of the ten boards.
    pub closed spec fn layers(&self) -> Seq<u128> {
        self.boards@.map_values(|b: BitBoard| b.merged_bitboard)
    }

    /// Ten empty boards.
    pub fn new() -> (r: SuperPosition)
        ensures
            r.layers() == Seq::new(10, |i: int| 0u128),
    {
        let r = SuperPosition { boards: [BitBoard { merged_bitboard: 0 }; 10] };
        assert(r.layers() =~= Seq::new(10, |i: int| 0u128));
        r
    }

    /// The squares held by at least one board.
    pub fn to_bitboard(&self) -> (r: BitBoard)
        ensures
            r.merged_bitboard == self.layers()[0] | self.layers()[1] | self.layers()[2] | self.layers()[3]
                | self.layers()[4] | self.layers()[5] | self.layers()[6] | self.layers()[7] | self.layers()[8]
                | self.layers()[9],
    {
        BitBoard {
            merged_bitboard: self.boards[0].merged_bitboard | self.boards[1].merged_bitboard
                | self.boards[2].merged_bitboard | self.boards[3].merged_bitboard | self.boards[4].merged_bitboard
                | self.boards[5].merged_bitboard | self.boards[6].merged_bitboard | self.boards[7].merged_bitboard
                | self.boards[8].merged_bitboard | self.boards[9].merged_bitboard,
        }
    }

    /// Adds `rhs` once: each board gains the bits carried into it.
    pub fn add_assign(&mut self, rhs: BitBoard)
        ensures
            final(self).layers().len() == 10,
            forall|i: int| 0 <= i < 10 ==> #[trigger] final(self).layers()[i]
                == old(self).layers()[i] | add_carry(old(self).layers(), rhs.merged_bitboard, i),
    {
        let ghost b0 = self.layers();
        let ghost r0 = rhs.merged_bitboard;
        let mut c = rhs.merged_bitboard;
        let mut i: usize = 0;
        while i < 10
            invariant_except_break
                i <= 10,
                c == add_carry(b0, r0, i as int),
                forall|j: int| i <= j < 10 ==> #[trigger] self.layers()[j] == b0[j],
            invariant
                b0.len() == 10,
                self.layers().len() == 10,
                b0 == old(self).layers(),
                forall|j: int| 0 <= j < i && j < 10 ==> #[trigger] self.layers()[j] == b0[j] | add_carry(b0, r0, j),
            ensures
                forall|j: int| 0 <= j < 10 ==> #[trigger] self.layers()[j] == b0[j] | add_carry(b0, r0, j),
            decreases 10 - i,
        {
            let b = self.boards[i].merged_bitboard;
            let ghost pre = self.layers();
            proof {
                assert(b == pre[i as int]);
            }
            let board = b | (b ^ c);
            let ghost c_in = c;
            c = b & c;
            self.boards[i] = BitBoard { merged_bitboard: board };
            proof {
                assert(self.layers() =~= pre.update(i as int, board));
                assert(c == add_carry(b0, r0, i as int + 1));
                assert(b | (b ^ c_in) == b | c_in) by (bit_vector);
                assert(self.layers()[i as int] == b0[i as int] | add_carry(b0, r0, i as int));
            }
            if c == 0 {
                proof {
                    lemma_add_carry_zero(b0, r0, i as int + 1);
                    assert forall|j: int| i < j < 10 implies #[trigger] self.layers()[j] == b0[j] | add_carry(b0, r0, j) by {
                        let x = b0[j];
                        assert(x | 0u128 == x) by (bit_vector);
                    }
                }
                break;
            }
            i += 1;
        }
    }

    /// Takes `rhs` out once: each board loses the bits still to be taken out
    /// when it is reached.
    pub fn sub_assign(&mut self, rhs: BitBoard)
        ensures
            final(self).layers().len() == 10,
            forall|i: int| 0 <= i < 10 ==> #[trigger] final(self).layers()[i]
                == old(self).layers()[i] & !sub_carry(old(self).layers(), rhs.merged_bitboard, i),
    {
        let ghost b0 = self.layers();
        let ghost r0 = rhs.merged_bitboard;
        let mut c = rhs.merged_bitboard;
        let mut i: usize = 0;
        while i < 10
            invariant_except_break
                i <= 10,
                c == sub_carry(b0, r0, i as int),
                forall|j: int| i <= j < 10 ==> #[trigger] self.layers()[j] == b0[j],
            invariant
                b0.len() == 10,
                self.layers().len() == 10,
                b0 == old(self).layers(),
                forall|j: int| 0 <= j < i && j < 10 ==> #[trigger] self.layers()[j] == b0[j] & !sub_carry(b0, r0, j),
            ensures
                forall|j: int| 0 <= j < 10 ==> #[trigger] self.layers()[j] == b0[j] & !sub_carry(b0, r0, j),
            decreases 10 - i,
        {
            let b = self.boards[i].merged_bitboard;
            let ghost pre = self.layers();
            proof {
                assert(b == pre[i as int]);
            }
            let board = b ^ (b & c);
            let ghost c_in = c;
            c = c ^ (b & c);
            self.boards[i] = BitBoard { merged_bitboard: board };
            proof {
                assert(self.layers() =~= pre.update(i as int, board));
                assert(b ^ (b & c_in) == b & !c_in) by (bit_vector);
                assert(c_in ^ (b & c_in) == c_in & !b) by (bit_vector);
                assert(c == sub_carry(b0, r0, i as int + 1));
                assert(self.layers()[i as int] == b0[i as int] & !sub_carry(b0, r0, i as int));
            }
            if c == 0 {
                proof {
                    lemma_sub_carry_zero(b0, r0, i as int + 1);
                    assert forall|j: int| i < j < 10 implies #[trigger] self.layers()[j] == b0[j] & !sub_carry(b0, r0, j) by {
                        let x = b0[j];
                        assert(x & !0u128 == x) by (bit_vector);
                    }
                }
                break;
            }
            i += 1;
        }
    }
}

/// Once nothing is carried, nothing is carried further.
proof fn lemma_add_carry_zero(b: Seq<u128>, r: u128, i: int)
    requires
        add_carry(b, r, i) == 0,
    ensures
        forall|j: int| i <= j ==> #[trigger] add_carry(b, r, j) == 0,
{
    assert forall|j: int| i <= j implies #[trigger] add_carry(b, r, j) == 0 by {
        lemma_add_carry_zero_at(b, r, i, j);
    }
}

proof fn lemma_add_carry_zero_at(b: Seq<u128>, r: u128, i: int, j: int)
    requires
        add_carry(b, r, i) == 0,
        i <= j,
    ensures
        add_carry(b, r, j) == 0,
    decreases j - i,
{
    if j > i {
        lemma_add_carry_zero_at(b, r, i, j - 1);
        if j > 0 {
            let x = b[j - 1];
            assert(x & 0u128 == 0) by (bit_vector);
        }
    }
}

/// Once nothing remains to be taken out, nothing remains further on.
proof fn lemma_sub_carry_zero(b: Seq<u128>, r: u128, i: int)
    requires
        sub_carry(b, r, i) == 0,
    ensures
        forall|j: int| i <= j ==> #[trigger] sub_carry(b, r, j) == 0,
{
    assert forall|j: int| i <= j implies #[trigger] sub_carry(b, r, j) == 0 by {
        lemma_sub_carry_zero_at(b, r, i, j);
    }
}

proof fn lemma_sub_carry_zero_at(b: Seq<u128>, r: u128, i: int, j: int)
    requires
        sub_carry(b, r, i) == 0,
        i <= j,
    ensures
        sub_carry(b, r, j) == 0,
    decreases j - i,
{
    if j > i {
        lemma_sub_carry_zero_at(b, r, i, j - 1);
        if j > 0 {
            let x = b[j - 1];
            assert(0u128 & !x == 0) by (bit_vector);
        }
    }
}

impl Default for SuperPosition {
    /// Ten empty boards.
    fn default() -> (r: SuperPosition)
        ensures
            r.layers() == Seq::new(10, |i: int| 0u128),
    {
        SuperPosition::new()
    }
}

} // verus!
