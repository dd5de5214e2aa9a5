//! The 128-bit bitboard used by move generation.
//!
//! Bit `s + 1` stands for the square `s = x * 9 + y` of the board; bit 0 and
//! the bits above 81 lie outside the board.
use vstd::prelude::*;

verus! {

/// Whether bit `i` of `b` is set.
pub open spec fn has_bit(b: u128, i: int) -> bool {
    0 <= i < 128 && (b >> (i as u128)) & 1u128 == 1u128
}

/// A set of bits over the 81 squares of the board (bit `s + 1` for square `s`).
#[derive(Clone, Copy, Debug, PartialEq, Eq, Structural)]
pub struct BitBoard {
    pub merged_bitboard: u128,
}

/// Bit `i` of `b` through its low and high 64-bit halves.
pub proof fn lemma_bit_halves(b: u128, i: u128)
    requires
        i < 128,
    ensures
        i < 64 ==> (((b >> i) & 1u128 == 1u128) <==> (((b as u64) >> (i as u64)) & 1u64 == 1u64)),
        i >= 64 ==> (((b >> i) & 1u128 == 1u128) <==> ((((b >> 64u128) as u64) >> ((i - 64) as u64)) & 1u64 == 1u64)),
{
    if i < 64 {
        assert(i < 64 ==> (((b >> i) & 1u128 == 1u128) <==> (((b as u64) >> (i as u64)) & 1u64 == 1u64))) by (bit_vector);
    } else {
        assert(64 <= i < 128 ==> (((b >> i) & 1u128 == 1u128) <==> ((((b >> 64u128) as u64) >> ((i - 64) as u64)) & 1u64 == 1u64))) by (bit_vector);
    }
}

impl BitBoard {
    /// The bitboard holding the given bits.
    pub fn from_u128(bits: u128) -> (r: BitBoard)
        ensures
            r.merged_bitboard == bits,
    {
        BitBoard { merged_bitboard: bits }
    }

    /// The bitboard whose low and high halves are given.
    pub fn from_pair(low: u64, high: u64) -> (r: BitBoard)
        ensures
            r.merged_bitboard == (high as u128) << 64u128 | (low as u128),
            r.merged_bitboard as u64 == low,
            (r.merged_bitboard >> 64u128) as u64 == high,
    {
        let m = (high as u128) << 64u128 | (low as u128);
        assert(((((high as u128) << 64u128) | (low as u128)) as u64) == low) by (bit_vector);
        assert(((((high as u128) << 64u128) | (low as u128)) >> 64u128) as u64 == high) by (bit_vector);
        BitBoard { merged_bitboard: m }
    }

    /// The low and high halves.
    pub fn to_pair(&self) -> (r: (u64, u64))
        ensures
            r.0 == self.merged_bitboard as u64,
            r.1 == (self.merged_bitboard >> 64u128) as u64,
    {
        (self.merged_bitboard as u64, (self.merged_bitboard >> 64) as u64)
    }

    /// The empty bitboard.
    pub fn empty() -> (r: BitBoard)
        ensures
            r.merged_bitboard == 0,
    {
        BitBoard { merged_bitboard: 0 }
    }

    /// Union.
    pub fn bitor(self, rhs: BitBoard) -> (r: BitBoard)
        ensures
            r.merged_bitboard == self.merged_bitboard | rhs.merged_bitboard,
    {
        BitBoard { merged_bitboard: self.merged_bitboard | rhs.merged_bitboard }
    }

    /// Intersection.
    pub fn bitand(self, rhs: BitBoard) -> (r: BitBoard)
        ensures
            r.merged_bitboard == self.merged_bitboard & rhs.merged_bitboard,
    {
        BitBoard { merged_bitboard: self.merged_bitboard & rhs.merged_bitboard }
    }

    /// Symmetric difference.
    pub fn bitxor(self, rhs: BitBoard) -> (r: BitBoard)
        ensures
            r.merged_bitboard == self.merged_bitboard ^ rhs.merged_bitboard,
    {
        BitBoard { merged_bitboard: self.merged_bitboard ^ rhs.merged_bitboard }
    }

    /// Complement of every bit.
    pub fn not(self) -> (r: BitBoard)
        ensures
            r.merged_bitboard == !self.merged_bitboard,
    {
        BitBoard { merged_bitboard: !self.merged_bitboard }
    }

    /// Difference of the bit patterns read as numbers.
    pub fn sub(self, rhs: BitBoard) -> (r: BitBoard)
        requires
            self.merged_bitboard >= rhs.merged_bitboard,
        ensures
            r.merged_bitboard == self.merged_bitboard - rhs.merged_bitboard,
    {
        BitBoard { merged_bitboard: self.merged_bitboard - rhs.merged_bitboard }
    }

    /// Shift towards higher bits.
    pub fn shl(self, rhs: u128) -> (r: BitBoard)
        requires
            rhs < 128,
        ensures
            r.merged_bitboard == self.merged_bitboard << rhs,
    {
        BitBoard { merged_bitboard: self.merged_bitboard << rhs }
    }

    /// Shift towards lower bits.
    pub fn shr(self, rhs: u128) -> (r: BitBoard)
        requires
            rhs < 128,
        ensures
            r.merged_bitboard == self.merged_bitboard >> rhs,
    {
        BitBoard { merged_bitboard: self.merged_bitboard >> rhs }
    }

    /// Subtraction of a number that wraps around below zero.
    pub fn wrapping_sub(self, rhs: u32) -> (r: BitBoard)
        ensures
            r.merged_bitboard == (if self.merged_bitboard >= rhs {
                self.merged_bitboard - rhs
            } else {
                self.merged_bitboard + 0x1_0000_0000_0000_0000_0000_0000_0000_0000int - rhs
            }),
    {
        BitBoard { merged_bitboard: self.merged_bitboard.wrapping_sub(rhs as u128) }
    }

    /// Whether the bits equal the given number.
    pub fn eq_u128(&self, other: u128) -> (r: bool)
        ensures
            r == (self.merged_bitboard == other),
    {
        self.merged_bitboard == other
    }
}

/// Bit-reversal of a 128-bit word.
pub open spec fn is_reverse(r: u128, x: u128) -> bool {
    forall|i: int| 0 <= i < 128 ==> (has_bit(r, i) <==> has_bit(x, 127 - i))
}

/// `u128::reverse_bits`: the bit at position `i` moves to position `127 - i`.
#[verifier::external_body]
fn u128_reverse_bits(x: u128) -> (r: u128)
    ensures
        is_reverse(r, x),
{
    x.reverse_bits()
}

/// `u64::count_ones`: the number of set bits.
#[verifier::external_body]
fn u64_count_ones(x: u64) -> (r: u32)
    ensures
        r == popcount64(x, 64),
{
    x.count_ones()
}

/// Number of set bits among the `n` lowest bits of `x`.
pub open spec fn popcount64(x: u64, n: nat) -> nat
    decreases n,
{
    if n == 0 {
        0
    } else {
        popcount64(x, (n - 1) as nat) + (if (x >> ((n - 1) as u64)) & 1u64 == 1u64 { 1nat } else { 0nat })
    }
}

pub proof fn lemma_popcount64_bound(x: u64, n: nat)
    ensures
        popcount64(x, n) <= n,
    decreases n,
{
    if n > 0 {
        lemma_popcount64_bound(x, (n - 1) as nat);
    }
}

impl BitBoard {
    /// The bits reversed and shifted down so that the 81 squares read from the other side.
    pub fn reverse(self) -> (r: BitBoard)
        ensures
            forall|i: int| 0 <= i < 83 ==> (has_bit(r.merged_bitboard, i) <==> has_bit(self.merged_bitboard, 82 - i)),
            forall|i: int| 83 <= i < 128 ==> !has_bit(r.merged_bitboard, i),
    {
        let rev = u128_reverse_bits(self.merged_bitboard);
        let res = rev >> 45u128;
        proof {
            assert forall|i: int| 0 <= i < 128 implies (has_bit(res, i) <==> (i < 83 && has_bit(rev, i + 45))) by {
                let k = i as u128;
                assert(k < 128 ==> (((rev >> 45u128) >> k) & 1u128 == 1u128 <==>
                    (k < 83 && (rev >> ((k + 45) as u128)) & 1u128 == 1u128))) by (bit_vector);
            }
        }
        BitBoard { merged_bitboard: res }
    }

    /// Number of set bits.
    pub fn bitcount(self) -> (r: usize)
        ensures
            r == popcount64(self.merged_bitboard as u64, 64) + popcount64((self.merged_bitboard >> 64u128) as u64, 64),
    {
        let (low, high) = self.to_pair();
        let a = u64_count_ones(low);
        let b = u64_count_ones(high);
        proof {
            lemma_popcount64_bound(low, 64);
            lemma_popcount64_bound(high, 64);
        }
        a as usize + b as usize
    }
}

impl Default for BitBoard {
    fn default() -> (r: BitBoard)
        ensures
            r.merged_bitboard == 0,
    {
        BitBoard { merged_bitboard: 0 }
    }
}

/// Repeatedly takes the lowest set bit of a bitboard, as the squares of the board.
pub struct PopLsbIterByCallback {
    board: BitBoard,
}

impl PopLsbIterByCallback {
    /// An iterator over the squares of `board`.
    pub fn new(board: BitBoard) -> (r: PopLsbIterByCallback)
        ensures
            r.remaining() == board,
    {
        PopLsbIterByCallback { board }
    }

    /// The squares not yet handed out.
    pub closed spec fn remaining(&self) -> BitBoard {
        self.board
    }

    /// The next square (the lowest set bit, minus one), or `None` when no bit is left.
    pub fn next(&mut self) -> (r: Option<i32>)
        ensures
            old(self).remaining().merged_bitboard == 0 ==> r is None && final(self).remaining() == old(self).remaining(),
            old(self).remaining().merged_bitboard != 0 ==> {
                &&& r matches Some(s)
                &&& has_bit(old(self).remaining().merged_bitboard, s + 1)
                &&& forall|j: int| 0 <= j < s + 1 ==> !has_bit(old(self).remaining().merged_bitboard, j)
                &&& final(self).remaining().merged_bitboard == old(self).remaining().merged_bitboard
                    & ((old(self).remaining().merged_bitboard - 1) as u128)
            },
    {
        if self.board.merged_bitboard == 0 {
            None
        } else {
            Some(pop_lsb(&mut self.board))
        }
    }
}

/// Takes the lowest set bit of `bitboard` and returns its position minus one
/// (the square it stands for); returns -1 and leaves the board as it is when
/// no bit is set.
pub fn pop_lsb(bitboard: &mut BitBoard) -> (r: i32)
    ensures
        old(bitboard).merged_bitboard == 0 ==> r == -1 && *final(bitboard) == *old(bitboard),
        old(bitboard).merged_bitboard != 0 ==> {
            &&& -1 <= r <= 126
            &&& has_bit(old(bitboard).merged_bitboard, r + 1)
            &&& forall|j: int| 0 <= j < r + 1 ==> !has_bit(old(bitboard).merged_bitboard, j)
            &&& final(bitboard).merged_bitboard == old(bitboard).merged_bitboard & ((old(bitboard).merged_bitboard - 1) as u128)
        },
{
    let b = bitboard.merged_bitboard;
    let bl = b as u64;
    let br = (b >> 64u128) as u64;
    if bl != 0 {
        proof {
            vstd::std_specs::bits::axiom_u64_trailing_zeros(bl);
            assert(bl == b as u64 && bl != 0 ==> b != 0) by (bit_vector);
        }
        let t = bl.trailing_zeros();
        let nb = (br as u128) << 64u128 | ((bl & (bl - 1)) as u128);
        proof {
            assert(bl == b as u64 && br == (b >> 64u128) as u64 && bl != 0 ==>
                ((br as u128) << 64u128 | ((bl & ((bl - 1) as u64)) as u128)) == b & ((b - 1) as u128)) by (bit_vector);
            let tt = t as u128;
            lemma_bit_halves(b, tt);
            assert forall|j: int| 0 <= j < t + 0 implies !has_bit(b, j) by {
                let jj = j as u128;
                lemma_bit_halves(b, jj);
                assert((bl >> (jj as u64)) & 1u64 == 0u64);
            }
        }
        bitboard.merged_bitboard = nb;
        t as i32 - 1
    } else if br != 0 {
        proof {
            vstd::std_specs::bits::axiom_u64_trailing_zeros(br);
            assert(br == (b >> 64u128) as u64 && br != 0 ==> b != 0) by (bit_vector);
        }
        let t = br.trailing_zeros();
        let nb = ((br & (br - 1)) as u128) << 64u128 | (bl as u128);
        proof {
            assert(bl == b as u64 && br == (b >> 64u128) as u64 && bl == 0 && br != 0 ==>
                (((br & ((br - 1) as u64)) as u128) << 64u128 | (bl as u128)) == b & ((b - 1) as u128)) by (bit_vector);
            let tt = (t + 64) as u128;
            lemma_bit_halves(b, tt);
            assert forall|j: int| 0 <= j < t + 64 implies !has_bit(b, j) by {
                let jj = j as u128;
                lemma_bit_halves(b, jj);
                if j < 64 {
                    assert(bl == b as u64 && bl == 0 && jj < 64 ==> ((b >> jj) & 1u128 != 1u128)) by (bit_vector);
                } else {
                    assert((br >> ((jj - 64) as u64)) & 1u64 == 0u64);
                }
            }
        }
        bitboard.merged_bitboard = nb;
        t as i32 + 63
    } else {
        proof {
            assert(bl == b as u64 && br == (b >> 64u128) as u64 && bl == 0 && br == 0 ==> b == 0) by (bit_vector);
        }
        -1
    }
}


/// A non-zero word has a lowest set bit.
pub proof fn lemma_lowest_exists(b: u128)
    requires
        b != 0,
    ensures
        exists|i: int| 0 <= i < 128 && has_bit(b, i) && forall|j: int| 0 <= j < i ==> !has_bit(b, j),
{
    let bl = b as u64;
    let br = (b >> 64u128) as u64;
    if bl != 0 {
        vstd::std_specs::bits::axiom_u64_trailing_zeros(bl);
        let t = vstd::std_specs::bits::u64_trailing_zeros(bl) as int;
        lemma_bit_halves(b, t as u128);
        assert forall|j: int| 0 <= j < t implies !has_bit(b, j) by {
            lemma_bit_halves(b, j as u128);
            assert((bl >> (j as u64)) & 1u64 == 0u64);
        }
        assert(has_bit(b, t));
    } else {
        assert(b != 0 && bl == b as u64 && br == (b >> 64u128) as u64 && bl == 0 ==> br != 0) by (bit_vector);
        vstd::std_specs::bits::axiom_u64_trailing_zeros(br);
        let t = vstd::std_specs::bits::u64_trailing_zeros(br) as int + 64;
        lemma_bit_halves(b, t as u128);
        assert forall|j: int| 0 <= j < t implies !has_bit(b, j) by {
            let jj = j as u128;
            lemma_bit_halves(b, jj);
            if j < 64 {
                assert(bl == b as u64 && bl == 0 && jj < 64 ==> ((b >> jj) & 1u128 != 1u128)) by (bit_vector);
            } else {
                assert((br >> ((jj - 64) as u64)) & 1u64 == 0u64);
            }
        }
        assert(has_bit(b, t));
    }
}

} // verus!
