//! Move generation over the bitboards.
use vstd::prelude::*;
use crate::bitboard::{BitBoard, has_bit};
use crate::shogi::{
    KomaKind, Teban, Banmen, ObtainKind, MochigomaKind, MochigomaCollections, kind_index, is_nari_kind, obtain_of_kind,
    mochigoma_of_index, mochigoma_index,
};
use crate::rule::{Rule, Square, LegalMove, LegalMoveTo, LegalMovePut, SquareToPoint, lemma_point_x};
use crate::rule::masks::{
    candidate_bits, candidate_bits_spec, TOP_MASK, BOTTOM_MASK, RIGHT_MASK, SENTE_NARI_MASK, GOTE_NARI_MASK,
    DENY_MOVE_SENTE_FU_AND_KYOU_MASK, DENY_MOVE_SENTE_KEI_MASK, DENY_MOVE_GOTE_FU_AND_KYOU_MASK, DENY_MOVE_GOTE_KEI_MASK,
};
use crate::rule::state::{square_kind, State, PartialState};
use crate::rule::apply::kinds_at;

verus! {

/// Every set bit of `b` stands for a square of the board (bits 1 to 81).
pub open spec fn within_board(b: u128) -> bool {
    forall|i: int| 0 <= i < 128 && #[trigger] has_bit(b, i) ==> 1 <= i <= 81
}

/// The lowest set bit of a non-zero `b`.
pub open spec fn lowest_bit(b: u128) -> int {
    choose|i: int| 0 <= i < 128 && has_bit(b, i) && forall|j: int| 0 <= j < i ==> !has_bit(b, j)
}

/// `b` with its lowest set bit cleared.
pub open spec fn clear_lowest(b: u128) -> u128 {
    b & ((b - 1) as u128)
}

/// Clearing the lowest bit: a smaller number, whose bits are those of `b` but the lowest.
pub proof fn lemma_clear_lowest(b: u128, i: u128)
    by (bit_vector)
    requires
        b != 0,
        i < 128,
    ensures
        (b & ((b - 1) as u128)) < b,
        ((b & ((b - 1) as u128)) >> i) & 1u128 == 1u128 ==> (b >> i) & 1u128 == 1u128,
{
}

/// The bit described by the position `i` is the lowest one.
pub proof fn lemma_lowest_bit(b: u128, i: int)
    requires
        0 <= i < 128,
        has_bit(b, i),
        forall|j: int| 0 <= j < i ==> !has_bit(b, j),
    ensures
        lowest_bit(b) == i,
{
    let k = lowest_bit(b);
    assert(0 <= k < 128 && has_bit(b, k) && forall|j: int| 0 <= j < k ==> !has_bit(b, j));
    if k < i {
        assert(!has_bit(b, k));
    }
    if i < k {
        assert(!has_bit(b, i));
    }
}

/// The calls a move builder gets for the destination `m` (counted from the side
/// that generated it; turned around when `inverse`): one that promotes where
/// the promotion board allows it, then one that does not where the piece may
/// stay as it is.
pub open spec fn append_args(m: int, from: u32, kind: KomaKind, nari_mask: u128, deny_move_mask: u128, inverse: bool) -> Seq<(u32, u32, bool)> {
    let to: u32 = if inverse { (80 - m) as u32 } else { m as u32 };
    let to_mask = 1u128 << (to as u128);
    let from_mask = 1u128 << (from as u128);
    let nari = is_nari_kind(kind);
    let a = if !nari && ((nari_mask & to_mask) != 0 || (nari_mask & from_mask) != 0) {
        seq![(from, to, true)]
    } else {
        seq![]
    };
    let b = if nari || (deny_move_mask & to_mask) == 0 { seq![(from, to, false)] } else { seq![] };
    a + b
}

/// The builder calls for every set bit of `b`, lowest first.
pub open spec fn board_args(b: u128, from: u32, kind: KomaKind, nari_mask: u128, deny_move_mask: u128, inverse: bool) -> Seq<(u32, u32, bool)>
    decreases b,
{
    if b == 0 {
        seq![]
    } else {
        proof {
            lemma_clear_lowest(b, 0);
        }
        append_args(lowest_bit(b) - 1, from, kind, nari_mask, deny_move_mask, inverse)
            + board_args(clear_lowest(b), from, kind, nari_mask, deny_move_mask, inverse)
    }
}

/// `new` is `old` followed by one result of `f` for each of `args`, in order.
pub open spec fn appended_by<F: Fn(u32, u32, bool) -> LegalMove>(
    f: F,
    old: Seq<LegalMove>,
    new: Seq<LegalMove>,
    args: Seq<(u32, u32, bool)>,
) -> bool {
    &&& new.len() == old.len() + args.len()
    &&& new.subrange(0, old.len() as int) == old
    &&& forall|i: int| 0 <= i < args.len() ==> f.ensures((args[i].0, args[i].1, args[i].2), #[trigger] new[old.len() + i])
}

/// `f` may be called with every destination on the board.
pub open spec fn builder_ok<F: Fn(u32, u32, bool) -> LegalMove>(f: F) -> bool {
    forall|from: u32, to: u32, nari: bool| to < 81 ==> #[trigger] f.requires((from, to, nari))
}

pub proof fn lemma_appended_trans<F: Fn(u32, u32, bool) -> LegalMove>(
    f: F,
    a: Seq<LegalMove>,
    b: Seq<LegalMove>,
    c: Seq<LegalMove>,
    x: Seq<(u32, u32, bool)>,
    y: Seq<(u32, u32, bool)>,
)
    requires
        appended_by(f, a, b, x),
        appended_by(f, b, c, y),
    ensures
        appended_by(f, a, c, x + y),
{
    assert(c.subrange(0, a.len() as int) =~= a) by {
        assert forall|i: int| 0 <= i < a.len() implies c[i] == a[i] by {
            assert(c[i] == c.subrange(0, b.len() as int)[i]);
            assert(b[i] == b.subrange(0, a.len() as int)[i]);
        }
    }
    assert forall|i: int| 0 <= i < (x + y).len() implies f.ensures(((x + y)[i].0, (x + y)[i].1, (x + y)[i].2), #[trigger] c[a.len() + i]) by {
        if i < x.len() {
            assert(c[a.len() + i] == c.subrange(0, b.len() as int)[a.len() + i]);
            assert(f.ensures((x[i].0, x[i].1, x[i].2), b[a.len() + i]));
        } else {
            let j = i - x.len();
            assert(f.ensures((y[j].0, y[j].1, y[j].2), c[b.len() + j]));
        }
    }
}

/// Every destination the builder gets for a board within the board is on the board.
pub proof fn lemma_board_args_on_board(b: u128, from: u32, kind: KomaKind, nari_mask: u128, deny_move_mask: u128, inverse: bool)
    requires
        within_board(b),
    ensures
        forall|i: int| 0 <= i < board_args(b, from, kind, nari_mask, deny_move_mask, inverse).len() ==>
            (#[trigger] board_args(b, from, kind, nari_mask, deny_move_mask, inverse)[i]).1 < 81,
    decreases b,
{
    if b != 0 {
        let args = board_args(b, from, kind, nari_mask, deny_move_mask, inverse);
        let k = lowest_bit(b);
        crate::bitboard::lemma_lowest_exists(b);
        assert(1 <= k <= 81);
        let c = clear_lowest(b);
        lemma_clear_lowest(b, 0);
        assert forall|i: int| 0 <= i < 128 && #[trigger] has_bit(c, i) implies 1 <= i <= 81 by {
            lemma_clear_lowest(b, i as u128);
            assert(has_bit(b, i));
        }
        lemma_board_args_on_board(c, from, kind, nari_mask, deny_move_mask, inverse);
        let head = append_args(k - 1, from, kind, nari_mask, deny_move_mask, inverse);
        let tail = board_args(c, from, kind, nari_mask, deny_move_mask, inverse);
        assert(args == head + tail);
        assert forall|i: int| 0 <= i < head.len() implies (#[trigger] head[i]).1 < 81 by {
        }
        assert forall|i: int| 0 <= i < args.len() implies (#[trigger] args[i]).1 < 81 by {
            if i < head.len() {
                assert(args[i] == head[i]);
            } else {
                assert(args[i] == tail[i - head.len()]);
            }
        }
    }
}


/// The squares a piece of `kind` standing on `from` reaches in one step, as
/// seen by side `teban` (whose board is turned around for gote), without the
/// squares held by the side's own pieces `self_occupied`.
pub open spec fn candidate_board(teban: Teban, self_occupied: u128, from: u32, kind: KomaKind) -> u128 {
    let f: u32 = if teban == Teban::Sente { from } else { (80 - from) as u32 };
    let x = f / 9;
    let y = f % 9;
    let i = kind_index(kind);
    if i >= 28 {
        0
    } else {
        let m0 = candidate_bits_spec(if i < 14 { i } else { i - 14 });
        let m1 = if y == 0 || ((i == 2 || i == 16) && y <= 1) {
            m0 & TOP_MASK
        } else if y == 8 {
            m0 & BOTTOM_MASK
        } else {
            m0
        };
        let m2 = if x == 8 { m1 & RIGHT_MASK } else { m1 };
        let board = !self_occupied & !1u128;
        if f < 10 {
            board & (m2 >> ((10 - f) as u128))
        } else {
            board & (m2 << ((f - 10) as u128))
        }
    }
}

/// The one-step patterns, trimmed at the edges and moved onto a square, stay on the board.
proof fn lemma_candidate_shift(m0: u128, f: u128, kei: bool)
    by (bit_vector)
    requires
        f < 81,
        m0 == 0 || m0 == 0b000000000_000000010_000000000u128 || m0 == 0b000000001_000000000_000000001u128
            || m0 == 0b000001010_000000010_000001010u128 || m0 == 0b000000110_000001010_000000110u128
            || m0 == 0b000001110_000001010_000001110u128 || m0 == 0b000000100_000001010_000000100u128
            || m0 == 0b000001010_000000000_000001010u128,
    ensures
        f < 10 ==> (((if f / 9 == 8 {
            (if f % 9 == 0 || (kei && f % 9 <= 1) { m0 & 0b111111100_111111100_111111100u128 } else if f % 9 == 8 { m0 & 0b000000111_000000111_000000111u128 } else { m0 }) & 0b000000000_111111111_111111111u128
        } else {
            (if f % 9 == 0 || (kei && f % 9 <= 1) { m0 & 0b111111100_111111100_111111100u128 } else if f % 9 == 8 { m0 & 0b000000111_000000111_000000111u128 } else { m0 })
        }) >> ((10 - f) as u128)) >> 82u128 == 0),
        f >= 10 ==> (((if f / 9 == 8 {
            (if f % 9 == 0 || (kei && f % 9 <= 1) { m0 & 0b111111100_111111100_111111100u128 } else if f % 9 == 8 { m0 & 0b000000111_000000111_000000111u128 } else { m0 }) & 0b000000000_111111111_111111111u128
        } else {
            (if f % 9 == 0 || (kei && f % 9 <= 1) { m0 & 0b111111100_111111100_111111100u128 } else if f % 9 == 8 { m0 & 0b000000111_000000111_000000111u128 } else { m0 })
        }) << ((f - 10) as u128)) >> 82u128 == 0),
{
}

/// A word with no bit above 81 and bit 0 clear lies within the board.
proof fn lemma_low_bits_within(r: u128, i: u128)
    by (bit_vector)
    requires
        r >> 82u128 == 0,
        r & 1u128 == 0,
        i < 128,
        (r >> i) & 1u128 == 1u128,
    ensures
        1 <= i <= 81,
{
}

pub proof fn lemma_within_of_low_bits(r: u128)
    requires
        r >> 82u128 == 0,
        r & 1u128 == 0,
    ensures
        within_board(r),
{
    assert forall|i: int| 0 <= i < 128 && #[trigger] has_bit(r, i) implies 1 <= i <= 81 by {
        lemma_low_bits_within(r, i as u128);
    }
}

/// Keeping only the bits of a mask keeps the bits above 81 and bit 0 clear.
proof fn lemma_and_low_bits(a: u128, m: u128)
    by (bit_vector)
    requires
        m >> 82u128 == 0,
    ensures
        (a & !1u128 & m) >> 82u128 == 0,
        (a & !1u128 & m) & 1u128 == 0,
{
}

/// Number of the moving piece's own kind among the fourteen kinds of one side.
fn side_kind_index(i: usize) -> (r: usize)
    requires
        i < 28,
    ensures
        r == (if i < 14 { i } else { (i - 14) as usize }),
        r < 14,
{
    if i < 14 { i } else { i - 14 }
}

impl Rule {
    /// Takes the lowest set bit of `bitboard` and returns the square it stands
    /// for (its position minus one), or -1 when no bit is set.
    pub fn pop_lsb(bitboard: &mut BitBoard) -> (r: Square)
        ensures
            old(bitboard).merged_bitboard == 0 ==> r == -1 && *final(bitboard) == *old(bitboard),
            old(bitboard).merged_bitboard != 0 ==> {
                &&& -1 <= r <= 126
                &&& r + 1 == lowest_bit(old(bitboard).merged_bitboard)
                &&& final(bitboard).merged_bitboard == clear_lowest(old(bitboard).merged_bitboard)
            },
    {
        let r = crate::bitboard::pop_lsb(bitboard);
        proof {
            if old(bitboard).merged_bitboard != 0 {
                lemma_lowest_bit(old(bitboard).merged_bitboard, r + 1);
            }
        }
        r
    }

    /// The squares a piece of `kind` on `from` reaches in one step, for side
    /// `teban`, without those held by the side's own pieces.
    pub fn gen_candidate_bits(teban: Teban, self_occupied: BitBoard, from: u32, kind: KomaKind) -> (r: BitBoard)
        requires
            from < 81,
        ensures
            r.merged_bitboard == candidate_board(teban, self_occupied.merged_bitboard, from, kind),
            within_board(r.merged_bitboard),
    {
        let from = if teban == Teban::Sente { from } else { 80 - from };
        proof {
            lemma_point_x(from);
        }
        let (x, y) = from.square_to_point();
        let i = kind.to_index();
        if i >= 28 {
            proof {
                assert(0u128 >> 82u128 == 0 && 0u128 & 1u128 == 0) by (bit_vector);
                lemma_within_of_low_bits(0);
            }
            return BitBoard { merged_bitboard: 0 };
        }
        let si = side_kind_index(i);
        let mut mask = candidate_bits(si);
        if y == 0 || ((i == 2 || i == 16) && y <= 1) {
            mask = mask & TOP_MASK;
        } else if y == 8 {
            mask = mask & BOTTOM_MASK;
        }
        if x == 8 {
            mask = mask & RIGHT_MASK;
        }
        let self_occupied = self_occupied.merged_bitboard;
        let mut board = !self_occupied & !1u128;
        proof {
            lemma_candidate_shift(candidate_bits_spec(si as int), from as u128, i == 2 || i == 16);
        }
        if from < 10 {
            let sh = mask >> ((11 - from - 1) as u128);
            proof {
                lemma_and_low_bits(!self_occupied, sh);
            }
            board = board & sh;
        } else if from == 10 {
            proof {
                assert(mask << 0u128 == mask) by (bit_vector);
                lemma_and_low_bits(!self_occupied, mask);
            }
            board = board & mask;
        } else {
            let sh = mask << ((from - 11 + 1) as u128);
            proof {
                lemma_and_low_bits(!self_occupied, sh);
            }
            board = board & sh;
        }
        proof {
            lemma_within_of_low_bits(board);
        }
        BitBoard { merged_bitboard: board }
    }

    /// Adds to `mvs` the moves of the piece `kind` from `from` to the square `m`
    /// (turned around when `inverse_position`): the promoting move where
    /// `nari_mask` holds the destination or the origin, and the plain move
    /// unless `deny_move_mask` holds the destination (promoted pieces always
    /// move plainly).
    pub fn append_legal_moves_from_banmen<F>(
        m: Square,
        from: u32,
        kind: KomaKind,
        nari_mask: u128,
        deny_move_mask: u128,
        inverse_position: bool,
        move_builder: &F,
        mvs: &mut Vec<LegalMove>,
    )
        where
            F: Fn(u32, u32, bool) -> LegalMove,
        requires
            0 <= m <= 80,
            from < 81,
            builder_ok(*move_builder),
        ensures
            appended_by(*move_builder, old(mvs)@, final(mvs)@,
                append_args(m as int, from, kind, nari_mask, deny_move_mask, inverse_position)),
    {
        let ghost old_mvs = mvs@;
        let to = m as u32;
        let to = if inverse_position { 80 - to } else { to };
        let to_mask: u128 = 1u128 << (to as u128);
        let from_mask: u128 = 1u128 << (from as u128);
        let nari = kind.is_nari();
        let ghost args = append_args(m as int, from, kind, nari_mask, deny_move_mask, inverse_position);
        if !nari && ((nari_mask & to_mask) != 0 || (nari_mask & from_mask) != 0) {
            let mv = move_builder(from, to, true);
            mvs.push(mv);
        }
        let ghost mid = mvs@;
        if nari || (deny_move_mask & to_mask) == 0 {
            let mv = move_builder(from, to, false);
            mvs.push(mv);
        }
        proof {
            assert(mvs@.subrange(0, old_mvs.len() as int) =~= old_mvs);
        }
    }

    /// Adds to `mvs` the moves to every square of `board`, lowest first.
    fn append_moves_of_board<F>(
        board: BitBoard,
        from: u32,
        kind: KomaKind,
        nari_mask: u128,
        deny_move_mask: u128,
        inverse_position: bool,
        move_builder: &F,
        mvs: &mut Vec<LegalMove>,
    )
        where
            F: Fn(u32, u32, bool) -> LegalMove,
        requires
            within_board(board.merged_bitboard),
            from < 81,
            builder_ok(*move_builder),
        ensures
            appended_by(*move_builder, old(mvs)@, final(mvs)@,
                board_args(board.merged_bitboard, from, kind, nari_mask, deny_move_mask, inverse_position)),
    {
        let ghost orig = mvs@;
        let ghost all = board_args(board.merged_bitboard, from, kind, nari_mask, deny_move_mask, inverse_position);
        let ghost mut done: Seq<(u32, u32, bool)> = seq![];
        let mut board = board;
        proof {
            assert(mvs@.subrange(0, orig.len() as int) =~= orig);
            assert(all =~= done + board_args(board.merged_bitboard, from, kind, nari_mask, deny_move_mask, inverse_position));
        }
        loop
            invariant
                within_board(board.merged_bitboard),
                from < 81,
                builder_ok(*move_builder),
                appended_by(*move_builder, orig, mvs@, done),
                all == done + board_args(board.merged_bitboard, from, kind, nari_mask, deny_move_mask, inverse_position),
            ensures
                appended_by(*move_builder, orig, mvs@, all),
            decreases board.merged_bitboard,
        {
            let ghost before = board.merged_bitboard;
            let ghost mvs_before = mvs@;
            let p = Rule::pop_lsb(&mut board);
            if p == -1 {
                proof {
                    assert(before == 0) by {
                        if before != 0 {
                            crate::bitboard::lemma_lowest_exists(before);
                            let k = lowest_bit(before);
                            assert(has_bit(before, k));
                        }
                    }
                    assert(all =~= done);
                }
                break;
            }
            proof {
                crate::bitboard::lemma_lowest_exists(before);
                assert(has_bit(before, p + 1));
                lemma_clear_lowest(before, 0);
                assert forall|i: int| 0 <= i < 128 && #[trigger] has_bit(board.merged_bitboard, i) implies 1 <= i <= 81 by {
                    lemma_clear_lowest(before, i as u128);
                    assert(has_bit(before, i));
                }
            }
            Rule::append_legal_moves_from_banmen(p, from, kind, nari_mask, deny_move_mask, inverse_position, move_builder, mvs);
            proof {
                let step = append_args(p as int, from, kind, nari_mask, deny_move_mask, inverse_position);
                lemma_appended_trans(*move_builder, orig, mvs_before, mvs@, done, step);
                assert(board_args(before, from, kind, nari_mask, deny_move_mask, inverse_position)
                    == step + board_args(board.merged_bitboard, from, kind, nari_mask, deny_move_mask, inverse_position));
                assert(all =~= (done + step) + board_args(board.merged_bitboard, from, kind, nari_mask, deny_move_mask, inverse_position));
                done = done + step;
            }
        }
    }
}


/// The diagonal masks running up to the right, by diagonal number (bit `s` for square `s`).
pub open spec fn to_right_top_mask_spec(i: int) -> u128 {
    if i == 0 { 0b000000000_000000000_000000000_000000000_000000000_000000000_000000000_000000000_000000001u128 }
    else if i == 1 { 0b000000000_000000000_000000000_000000000_000000000_000000000_000000000_000000001_000000010u128 }
    else if i == 2 { 0b000000000_000000000_000000000_000000000_000000000_000000000_000000001_000000010_000000100u128 }
    else if i == 3 { 0b000000000_000000000_000000000_000000000_000000000_000000001_000000010_000000100_000001000u128 }
    else if i == 4 { 0b000000000_000000000_000000000_000000000_000000001_000000010_000000100_000001000_000010000u128 }
    else if i == 5 { 0b000000000_000000000_000000000_000000001_000000010_000000100_000001000_000010000_000100000u128 }
    else if i == 6 { 0b000000000_000000000_000000001_000000010_000000100_000001000_000010000_000100000_001000000u128 }
    else if i == 7 { 0b000000000_000000001_000000010_000000100_000001000_000010000_000100000_001000000_010000000u128 }
    else if i == 8 { 0b000000001_000000010_000000100_000001000_000010000_000100000_001000000_010000000_100000000u128 }
    else if i == 9 { 0b000000010_000000100_000001000_000010000_000100000_001000000_010000000_100000000_000000000u128 }
    else if i == 10 { 0b000000100_000001000_000010000_000100000_001000000_010000000_100000000_000000000_000000000u128 }
    else if i == 11 { 0b000001000_000010000_000100000_001000000_010000000_100000000_000000000_000000000_000000000u128 }
    else if i == 12 { 0b000010000_000100000_001000000_010000000_100000000_000000000_000000000_000000000_000000000u128 }
    else if i == 13 { 0b000100000_001000000_010000000_100000000_000000000_000000000_000000000_000000000_000000000u128 }
    else if i == 14 { 0b001000000_010000000_100000000_000000000_000000000_000000000_000000000_000000000_000000000u128 }
    else if i == 15 { 0b010000000_000000001_000000000_000000000_000000000_000000000_000000000_000000000_000000000u128 }
    else { 0b100000000_000000000_000000000_000000000_000000000_000000000_000000000_000000000_000000000u128 }
}

/// The diagonal masks running down to the right, by diagonal number (bit `s` for square `s`).
pub open spec fn to_right_bottom_mask_spec(i: int) -> u128 {
    if i == 0 { 0b100000000_010000000_001000000_000100000_000010000_000001000_000000100_000000010_000000001u128 }
    else if i == 1 { 0b000000000_100000000_010000000_001000000_000100000_000010000_000001000_000000100_000000010u128 }
    else if i == 2 { 0b000000000_000000000_100000000_010000000_001000000_000100000_000010000_000001000_000000100u128 }
    else if i == 3 { 0b000000000_000000000_000000000_100000000_010000000_001000000_000100000_000010000_000001000u128 }
    else if i == 4 { 0b000000000_000000000_000000000_000000000_100000000_010000000_001000000_000100000_000010000u128 }
    else if i == 5 { 0b000000000_000000000_000000000_000000000_000000000_100000000_010000000_001000000_000100000u128 }
    else if i == 6 { 0b000000000_000000000_000000000_000000000_000000000_000000000_100000000_010000000_001000000u128 }
    else if i == 7 { 0b000000000_000000000_000000000_000000000_000000000_000000000_000000000_100000000_010000000u128 }
    else if i == 8 { 0b000000000_000000000_000000000_000000000_000000000_000000000_000000000_000000000_100000000u128 }
    else if i == 9 { 0b010000000_001000000_000100000_000010000_000001000_000000100_000000010_000000001_000000000u128 }
    else if i == 10 { 0b001000000_000100000_000010000_000001000_000000100_000000010_000000001_000000000_000000000u128 }
    else if i == 11 { 0b000100000_000010000_000001000_000000100_000000010_000000001_000000000_000000000_000000000u128 }
    else if i == 12 { 0b000010000_000001000_000000100_000000010_000000001_000000000_000000000_000000000_000000000u128 }
    else if i == 13 { 0b000001000_000000100_000000010_000000001_000000000_000000000_000000000_000000000_000000000u128 }
    else if i == 14 { 0b000000100_000000010_000000001_000000000_000000000_000000000_000000000_000000000_000000000u128 }
    else if i == 15 { 0b000000010_000000001_000000000_000000000_000000000_000000000_000000000_000000000_000000000u128 }
    else { 0b000000001_000000000_000000000_000000000_000000000_000000000_000000000_000000000_000000000u128 }
}

fn to_right_top_mask(i: usize) -> (r: u128)
    requires
        i < 17,
    ensures
        r == to_right_top_mask_spec(i as int),
        r < 0x2_0000_0000_0000_0000_0000u128,
{
    match i {
        0 => 0b000000000_000000000_000000000_000000000_000000000_000000000_000000000_000000000_000000001u128,
        1 => 0b000000000_000000000_000000000_000000000_000000000_000000000_000000000_000000001_000000010u128,
        2 => 0b000000000_000000000_000000000_000000000_000000000_000000000_000000001_000000010_000000100u128,
        3 => 0b000000000_000000000_000000000_000000000_000000000_000000001_000000010_000000100_000001000u128,
        4 => 0b000000000_000000000_000000000_000000000_000000001_000000010_000000100_000001000_000010000u128,
        5 => 0b000000000_000000000_000000000_000000001_000000010_000000100_000001000_000010000_000100000u128,
        6 => 0b000000000_000000000_000000001_000000010_000000100_000001000_000010000_000100000_001000000u128,
        7 => 0b000000000_000000001_000000010_000000100_000001000_000010000_000100000_001000000_010000000u128,
        8 => 0b000000001_000000010_000000100_000001000_000010000_000100000_001000000_010000000_100000000u128,
        9 => 0b000000010_000000100_000001000_000010000_000100000_001000000_010000000_100000000_000000000u128,
        10 => 0b000000100_000001000_000010000_000100000_001000000_010000000_100000000_000000000_000000000u128,
        11 => 0b000001000_000010000_000100000_001000000_010000000_100000000_000000000_000000000_000000000u128,
        12 => 0b000010000_000100000_001000000_010000000_100000000_000000000_000000000_000000000_000000000u128,
        13 => 0b000100000_001000000_010000000_100000000_000000000_000000000_000000000_000000000_000000000u128,
        14 => 0b001000000_010000000_100000000_000000000_000000000_000000000_000000000_000000000_000000000u128,
        15 => 0b010000000_000000001_000000000_000000000_000000000_000000000_000000000_000000000_000000000u128,
        _ => 0b100000000_000000000_000000000_000000000_000000000_000000000_000000000_000000000_000000000u128,
    }
}

fn to_right_bottom_mask(i: usize) -> (r: u128)
    requires
        i < 17,
    ensures
        r == to_right_bottom_mask_spec(i as int),
        r < 0x2_0000_0000_0000_0000_0000u128,
{
    match i {
        0 => 0b100000000_010000000_001000000_000100000_000010000_000001000_000000100_000000010_000000001u128,
        1 => 0b000000000_100000000_010000000_001000000_000100000_000010000_000001000_000000100_000000010u128,
        2 => 0b000000000_000000000_100000000_010000000_001000000_000100000_000010000_000001000_000000100u128,
        3 => 0b000000000_000000000_000000000_100000000_010000000_001000000_000100000_000010000_000001000u128,
        4 => 0b000000000_000000000_000000000_000000000_100000000_010000000_001000000_000100000_000010000u128,
        5 => 0b000000000_000000000_000000000_000000000_000000000_100000000_010000000_001000000_000100000u128,
        6 => 0b000000000_000000000_000000000_000000000_000000000_000000000_100000000_010000000_001000000u128,
        7 => 0b000000000_000000000_000000000_000000000_000000000_000000000_000000000_100000000_010000000u128,
        8 => 0b000000000_000000000_000000000_000000000_000000000_000000000_000000000_000000000_100000000u128,
        9 => 0b010000000_001000000_000100000_000010000_000001000_000000100_000000010_000000001_000000000u128,
        10 => 0b001000000_000100000_000010000_000001000_000000100_000000010_000000001_000000000_000000000u128,
        11 => 0b000100000_000010000_000001000_000000100_000000010_000000001_000000000_000000000_000000000u128,
        12 => 0b000010000_000001000_000000100_000000010_000000001_000000000_000000000_000000000_000000000u128,
        13 => 0b000001000_000000100_000000010_000000001_000000000_000000000_000000000_000000000_000000000u128,
        14 => 0b000000100_000000010_000000001_000000000_000000000_000000000_000000000_000000000_000000000u128,
        15 => 0b000000010_000000001_000000000_000000000_000000000_000000000_000000000_000000000_000000000u128,
        _ => 0b000000001_000000000_000000000_000000000_000000000_000000000_000000000_000000000_000000000u128,
    }
}

/// Number of the up-right diagonal through square `from`.
pub open spec fn rt_diagonal(from: int) -> int {
    from / 9 + from % 9
}

/// Number of the down-right diagonal through square `from`.
pub open spec fn rb_diagonal(from: int) -> int {
    if from % 9 >= from / 9 { from % 9 - from / 9 } else { 8 + from / 9 - from % 9 }
}

/// The up-right diagonal through `from`, one bit up (bit `s + 1` for square `s`).
pub open spec fn kaku_rt_mask(from: int) -> u128 {
    to_right_top_mask_spec(rt_diagonal(from)) << 1u128
}

/// The down-right diagonal through `from`, one bit up.
pub open spec fn kaku_rb_mask(from: int) -> u128 {
    to_right_bottom_mask_spec(rb_diagonal(from)) << 1u128
}

/// The column of `from`, one bit up.
pub open spec fn column_mask(from: int) -> u128 {
    0b111111111u128 << ((from / 9 * 9 + 1) as u128)
}

/// The row of `from`, one bit up.
pub open spec fn row_mask(from: int) -> u128 {
    0b000000001_000000001_000000001_000000001_000000001_000000001_000000001_000000001_000000001u128
        << ((from % 9 + 1) as u128)
}

/// Subtraction modulo 2^128.
pub open spec fn wrap_sub(x: u128, y: u128) -> u128 {
    if x - y < 0 { (x - y + 0x1_0000_0000_0000_0000_0000_0000_0000_0000int) as u128 } else { (x - y) as u128 }
}

/// The squares of `mask` reached from square `from` towards higher bits:
/// those up to and including the first occupied one in `occ`, without `exclude`.
pub open spec fn slide_bits(occ: u128, mask: u128, exclude: u128, from: int) -> u128 {
    ((wrap_sub(occ, 4u128 << (from as u128)) ^ occ) & mask) & !exclude
}

/// Bishop moves towards the upper right, from the side whose pieces are `self_occupied`.
pub open spec fn kaku_rt_bits(self_occupied: u128, opponent_occupied: u128, exclude: u128, from: int) -> u128 {
    slide_bits((self_occupied | opponent_occupied) & kaku_rt_mask(from), kaku_rt_mask(from), exclude, from)
}

/// Bishop moves towards the lower right.
pub open spec fn kaku_rb_bits(self_occupied: u128, opponent_occupied: u128, exclude: u128, from: int) -> u128 {
    slide_bits((self_occupied | opponent_occupied) & kaku_rb_mask(from), kaku_rb_mask(from), exclude, from)
}

/// Rook and lance moves along the column towards higher bits.
pub open spec fn hisha_top_bits(self_occupied: u128, opponent_occupied: u128, exclude: u128, from: int) -> u128 {
    slide_bits(self_occupied | opponent_occupied, column_mask(from), exclude, from)
}

/// Rook moves along the row towards higher bits.
pub open spec fn hisha_right_bits(self_occupied: u128, opponent_occupied: u128, exclude: u128, from: int) -> u128 {
    slide_bits((self_occupied | opponent_occupied) & row_mask(from), row_mask(from), exclude, from)
}

/// A mask of at most 81 bits, moved one bit up, keeps any word within the board.
proof fn lemma_masked_within(a: u128, m: u128, c: u128)
    by (bit_vector)
    requires
        m < 0x2_0000_0000_0000_0000_0000u128,
    ensures
        ((a & (m << 1u128)) & c) >> 82u128 == 0,
        ((a & (m << 1u128)) & c) & 1u128 == 0,
{
}

/// The column and row masks lie within the board.
proof fn lemma_line_masks(from: u128)
    by (bit_vector)
    requires
        from < 81,
    ensures
        0b111111111u128 << ((from / 9 * 9 + 1) as u128) == (0b111111111u128 << ((from / 9 * 9) as u128)) << 1u128,
        (0b111111111u128 << ((from / 9 * 9) as u128)) < 0x2_0000_0000_0000_0000_0000u128,
        0b000000001_000000001_000000001_000000001_000000001_000000001_000000001_000000001_000000001u128 << ((from % 9 + 1) as u128)
            == (0b000000001_000000001_000000001_000000001_000000001_000000001_000000001_000000001_000000001u128 << ((from % 9) as u128)) << 1u128,
        (0b000000001_000000001_000000001_000000001_000000001_000000001_000000001_000000001_000000001u128 << ((from % 9) as u128))
            < 0x2_0000_0000_0000_0000_0000u128,
{
}

impl Rule {
    pub(crate) fn gen_candidate_bits_by_kaku_to_right_top_with_exclude(
        self_occupied: BitBoard,
        opponent_occupied: BitBoard,
        exclude: BitBoard,
        from: u32,
    ) -> (r: BitBoard)
        requires
            from < 81,
        ensures
            r.merged_bitboard == kaku_rt_bits(self_occupied.merged_bitboard, opponent_occupied.merged_bitboard,
                exclude.merged_bitboard, from as int),
            within_board(r.merged_bitboard),
    {
        proof {
            lemma_point_x(from);
        }
        let (x, y) = from.square_to_point();
        let d = to_right_top_mask((x + y) as usize);
        let mask = d << 1u128;
        let occ = (self_occupied.merged_bitboard | opponent_occupied.merged_bitboard) & mask;
        let candidate = ((occ.wrapping_sub(4u128 << (from as u128)) ^ occ) & mask) & !exclude.merged_bitboard;
        proof {
            lemma_masked_within(occ.wrapping_sub(4u128 << (from as u128)) ^ occ, d, !exclude.merged_bitboard);
            lemma_within_of_low_bits(candidate);
        }
        BitBoard { merged_bitboard: candidate }
    }

    /// Bishop moves towards the upper right (higher bits along the diagonal)
    /// from `from`, up to the first occupied square, without the side's own pieces.
    pub fn gen_candidate_bits_by_kaku_to_right_top(self_occupied: BitBoard, opponent_occupied: BitBoard, from: u32) -> (r: BitBoard)
        requires
            from < 81,
        ensures
            r.merged_bitboard == kaku_rt_bits(self_occupied.merged_bitboard, opponent_occupied.merged_bitboard,
                self_occupied.merged_bitboard, from as int),
            within_board(r.merged_bitboard),
    {
        Rule::gen_candidate_bits_by_kaku_to_right_top_with_exclude(self_occupied, opponent_occupied, self_occupied, from)
    }

    pub(crate) fn gen_candidate_bits_by_kaku_to_right_bottom_with_exclude(
        self_occupied: BitBoard,
        opponent_occupied: BitBoard,
        exclude: BitBoard,
        from: u32,
    ) -> (r: BitBoard)
        requires
            from < 81,
        ensures
            r.merged_bitboard == kaku_rb_bits(self_occupied.merged_bitboard, opponent_occupied.merged_bitboard,
                exclude.merged_bitboard, from as int),
            within_board(r.merged_bitboard),
    {
        proof {
            lemma_point_x(from);
        }
        let (x, y) = from.square_to_point();
        let i: u32 = if y >= x { y - x } else { 8 + x - y };
        let d = to_right_bottom_mask(i as usize);
        let mask = d << 1u128;
        let occ = (self_occupied.merged_bitboard | opponent_occupied.merged_bitboard) & mask;
        let candidate = ((occ.wrapping_sub(4u128 << (from as u128)) ^ occ) & mask) & !exclude.merged_bitboard;
        proof {
            lemma_masked_within(occ.wrapping_sub(4u128 << (from as u128)) ^ occ, d, !exclude.merged_bitboard);
            lemma_within_of_low_bits(candidate);
        }
        BitBoard { merged_bitboard: candidate }
    }

    /// Bishop moves towards the lower right (higher bits along the diagonal)
    /// from `from`, up to the first occupied square, without the side's own pieces.
    pub fn gen_candidate_bits_by_kaku_to_right_bottom(self_occupied: BitBoard, opponent_occupied: BitBoard, from: u32) -> (r: BitBoard)
        requires
            from < 81,
        ensures
            r.merged_bitboard == kaku_rb_bits(self_occupied.merged_bitboard, opponent_occupied.merged_bitboard,
                self_occupied.merged_bitboard, from as int),
            within_board(r.merged_bitboard),
    {
        Rule::gen_candidate_bits_by_kaku_to_right_bottom_with_exclude(self_occupied, opponent_occupied, self_occupied, from)
    }

    pub(crate) fn gen_candidate_bits_by_hisha_or_kyou_to_top_with_exclude(
        flip_self_occupied: BitBoard,
        flip_opponent_occupied: BitBoard,
        exclude: BitBoard,
        from: u32,
    ) -> (r: BitBoard)
        requires
            from < 81,
        ensures
            r.merged_bitboard == hisha_top_bits(flip_self_occupied.merged_bitboard, flip_opponent_occupied.merged_bitboard,
                exclude.merged_bitboard, from as int),
            within_board(r.merged_bitboard),
    {
        let occ = flip_self_occupied.merged_bitboard | flip_opponent_occupied.merged_bitboard;
        let x = from / 9;
        let mask = 0b111111111u128 << ((x * 9 + 1) as u128);
        let candidate = ((occ.wrapping_sub(4u128 << (from as u128)) ^ occ) & mask) & !exclude.merged_bitboard;
        proof {
            lemma_line_masks(from as u128);
            lemma_masked_within(occ.wrapping_sub(4u128 << (from as u128)) ^ occ, 0b111111111u128 << ((from / 9 * 9) as u128), !exclude.merged_bitboard);
            lemma_within_of_low_bits(candidate);
        }
        BitBoard { merged_bitboard: candidate }
    }

    /// Rook and lance moves along the column towards higher bits from `from`
    /// (on a board turned around: towards the top), up to the first occupied
    /// square, without the side's own pieces.
    pub fn gen_candidate_bits_by_hisha_or_kyou_to_top(
        flip_self_occupied: BitBoard,
        flip_opponent_occupied: BitBoard,
        from: u32,
    ) -> (r: BitBoard)
        requires
            from < 81,
        ensures
            r.merged_bitboard == hisha_top_bits(flip_self_occupied.merged_bitboard, flip_opponent_occupied.merged_bitboard,
                flip_self_occupied.merged_bitboard, from as int),
            within_board(r.merged_bitboard),
    {
        Rule::gen_candidate_bits_by_hisha_or_kyou_to_top_with_exclude(flip_self_occupied, flip_opponent_occupied, flip_self_occupied, from)
    }

    pub(crate) fn gen_candidate_bits_by_hisha_to_right_with_exclude(
        self_occupied: BitBoard,
        opponent_occupied: BitBoard,
        exclude: BitBoard,
        from: u32,
    ) -> (r: BitBoard)
        requires
            from < 81,
        ensures
            r.merged_bitboard == hisha_right_bits(self_occupied.merged_bitboard, opponent_occupied.merged_bitboard,
                exclude.merged_bitboard, from as int),
            within_board(r.merged_bitboard),
    {
        proof {
            lemma_point_x(from);
        }
        let x = from * 114 / 1024;
        let mask = 0b000000001_000000001_000000001_000000001_000000001_000000001_000000001_000000001_000000001u128
            << ((from - 9 * x + 1) as u128);
        let occ = (self_occupied.merged_bitboard | opponent_occupied.merged_bitboard) & mask;
        let candidate = ((occ.wrapping_sub(4u128 << (from as u128)) ^ occ) & mask) & !exclude.merged_bitboard;
        proof {
            lemma_line_masks(from as u128);
            lemma_masked_within(occ.wrapping_sub(4u128 << (from as u128)) ^ occ,
                0b000000001_000000001_000000001_000000001_000000001_000000001_000000001_000000001_000000001u128 << ((from % 9) as u128),
                !exclude.merged_bitboard);
            lemma_within_of_low_bits(candidate);
        }
        BitBoard { merged_bitboard: candidate }
    }

    /// Rook moves along the row towards higher bits from `from` (to the
    /// right), up to the first occupied square, without the side's own pieces.
    pub fn gen_candidate_bits_by_hisha_to_right(self_occupied: BitBoard, opponent_occupied: BitBoard, from: u32) -> (r: BitBoard)
        requires
            from < 81,
        ensures
            r.merged_bitboard == hisha_right_bits(self_occupied.merged_bitboard, opponent_occupied.merged_bitboard,
                self_occupied.merged_bitboard, from as int),
            within_board(r.merged_bitboard),
    {
        Rule::gen_candidate_bits_by_hisha_to_right_with_exclude(self_occupied, opponent_occupied, self_occupied, from)
    }
}

/// The builder calls of sente's bishop.
pub open spec fn sente_kaku_args(so: u128, oo: u128, fso: u128, foo: u128, from: u32, kind: KomaKind, nari_mask: u128, deny_move_mask: u128) -> Seq<(u32, u32, bool)> {
    board_args(kaku_rb_bits(foo, fso, foo, 80 - from), from, kind, nari_mask, deny_move_mask, true) +
    board_args(kaku_rt_bits(so, oo, so, from as int), from, kind, nari_mask, deny_move_mask, false) +
    board_args(kaku_rt_bits(foo, fso, foo, 80 - from), from, kind, nari_mask, deny_move_mask, true) +
    board_args(kaku_rb_bits(so, oo, so, from as int), from, kind, nari_mask, deny_move_mask, false) +
    (if kind == KomaKind::SKakuN {
        board_args(candidate_board(Teban::Sente, so, from, kind), from, kind, nari_mask, deny_move_mask, false)
    } else {
        seq![]
    })
}

/// The builder calls of gote's bishop.
pub open spec fn gote_kaku_args(so: u128, oo: u128, fso: u128, foo: u128, from: u32, kind: KomaKind, nari_mask: u128, deny_move_mask: u128) -> Seq<(u32, u32, bool)> {
    board_args(kaku_rb_bits(foo, fso, foo, from as int), from, kind, nari_mask, deny_move_mask, false) +
    board_args(kaku_rt_bits(so, oo, so, 80 - from), from, kind, nari_mask, deny_move_mask, true) +
    board_args(kaku_rt_bits(foo, fso, foo, from as int), from, kind, nari_mask, deny_move_mask, false) +
    board_args(kaku_rb_bits(so, oo, so, 80 - from), from, kind, nari_mask, deny_move_mask, true) +
    (if kind == KomaKind::GKakuN {
        board_args(candidate_board(Teban::Gote, so, from, kind), from, kind, nari_mask, deny_move_mask, true)
    } else {
        seq![]
    })
}

/// The builder calls of sente's rook.
pub open spec fn sente_hisha_args(so: u128, oo: u128, fso: u128, foo: u128, from: u32, kind: KomaKind, nari_mask: u128, deny_move_mask: u128) -> Seq<(u32, u32, bool)> {
    board_args(hisha_top_bits(foo, fso, foo, 80 - from), from, kind, nari_mask, deny_move_mask, true) +
    board_args(hisha_top_bits(so, oo, so, from as int), from, kind, nari_mask, deny_move_mask, false) +
    board_args(hisha_right_bits(foo, fso, foo, 80 - from), from, kind, nari_mask, deny_move_mask, true) +
    board_args(hisha_right_bits(so, oo, so, from as int), from, kind, nari_mask, deny_move_mask, false) +
    (if kind == KomaKind::SHishaN {
        board_args(candidate_board(Teban::Sente, so, from, kind), from, kind, nari_mask, deny_move_mask, false)
    } else {
        seq![]
    })
}

/// The builder calls of gote's rook.
pub open spec fn gote_hisha_args(so: u128, oo: u128, fso: u128, foo: u128, from: u32, kind: KomaKind, nari_mask: u128, deny_move_mask: u128) -> Seq<(u32, u32, bool)> {
    board_args(hisha_top_bits(foo, fso, foo, from as int), from, kind, nari_mask, deny_move_mask, false) +
    board_args(hisha_top_bits(so, oo, so, 80 - from), from, kind, nari_mask, deny_move_mask, true) +
    board_args(hisha_right_bits(foo, fso, foo, from as int), from, kind, nari_mask, deny_move_mask, false) +
    board_args(hisha_right_bits(so, oo, so, 80 - from), from, kind, nari_mask, deny_move_mask, true) +
    (if kind == KomaKind::GHishaN {
        board_args(candidate_board(Teban::Gote, so, from, kind), from, kind, nari_mask, deny_move_mask, true)
    } else {
        seq![]
    })
}

/// The builder calls of sente's lance (its column, turned around).
pub open spec fn sente_kyou_args(fso: u128, foo: u128, from: u32, nari_mask: u128, deny_move_mask: u128) -> Seq<(u32, u32, bool)> {
    board_args(hisha_top_bits(foo, fso, foo, 80 - from), from, KomaKind::SKyou, nari_mask, deny_move_mask, true)
}

/// The builder calls of gote's lance.
pub open spec fn gote_kyou_args(fso: u128, foo: u128, from: u32, nari_mask: u128, deny_move_mask: u128) -> Seq<(u32, u32, bool)> {
    board_args(hisha_top_bits(foo, fso, foo, from as int), from, KomaKind::GKyou, nari_mask, deny_move_mask, false)
}

impl Rule {
    /// Adds to `mvs` the moves of a piece that steps one square (or jumps, for
    /// the knight) from `from`, lowest destination first.
    pub fn legal_moves_once_with_point_and_kind_and_bitboard_and_buffer<F>(
        teban: Teban,
        self_occupied: BitBoard,
        from: u32,
        kind: KomaKind,
        nari_mask: u128,
        deny_move_mask: u128,
        inverse_position: bool,
        move_builder: &F,
        mvs: &mut Vec<LegalMove>,
    )
        where
            F: Fn(u32, u32, bool) -> LegalMove,
        requires
            from < 81,
            builder_ok(*move_builder),
        ensures
            appended_by(*move_builder, old(mvs)@, final(mvs)@,
                board_args(candidate_board(teban, self_occupied.merged_bitboard, from, kind), from, kind, nari_mask,
                    deny_move_mask, inverse_position)),
    {
        let board = Rule::gen_candidate_bits(teban, self_occupied, from, kind);
        Rule::append_moves_of_board(board, from, kind, nari_mask, deny_move_mask, inverse_position, move_builder, mvs);
    }

    /// The moves of a piece that steps one square (or jumps, for the knight) from `from`.
    pub fn legal_moves_once_with_point_and_kind_and_bitboard<F>(
        teban: Teban,
        self_occupied: BitBoard,
        from: u32,
        kind: KomaKind,
        nari_mask: u128,
        deny_move_mask: u128,
        inverse_position: bool,
        move_builder: &F,
    ) -> (r: Vec<LegalMove>)
        where
            F: Fn(u32, u32, bool) -> LegalMove,
        requires
            from < 81,
            builder_ok(*move_builder),
        ensures
            appended_by(*move_builder, seq![], r@,
                board_args(candidate_board(teban, self_occupied.merged_bitboard, from, kind), from, kind, nari_mask,
                    deny_move_mask, inverse_position)),
    {
        let mut mvs: Vec<LegalMove> = Vec::new();
        Rule::legal_moves_once_with_point_and_kind_and_bitboard_and_buffer(
            teban, self_occupied, from, kind, nari_mask, deny_move_mask, inverse_position, move_builder, &mut mvs,
        );
        mvs
    }

    /// Adds to `mvs` the moves of sente's bishop on `from` along both diagonals, both ways, and for a promoted one its single steps.
    pub fn legal_moves_sente_kaku_with_point_and_kind_and_bitboard_and_buffer<F>(
        self_occupied: BitBoard,
        opponent_occupied: BitBoard,
        flip_self_occupied: BitBoard,
        flip_opponent_occupied: BitBoard,
        from: u32,
        kind: KomaKind,
        nari_mask: u128,
        deny_move_mask: u128,
        move_builder: &F,
        mvs: &mut Vec<LegalMove>,
    )
        where
            F: Fn(u32, u32, bool) -> LegalMove,
        requires
            from < 81,
            builder_ok(*move_builder),
        ensures
            appended_by(*move_builder, old(mvs)@, final(mvs)@, sente_kaku_args(self_occupied.merged_bitboard, opponent_occupied.merged_bitboard, flip_self_occupied.merged_bitboard, flip_opponent_occupied.merged_bitboard, from, kind, nari_mask, deny_move_mask)),
    {
        let ghost orig = mvs@;
        let ghost mut acc: Seq<(u32, u32, bool)> = seq![];
        proof {
            assert(mvs@.subrange(0, orig.len() as int) =~= orig);
        }
        {
            let ghost before = mvs@;
            let b = Rule::gen_candidate_bits_by_kaku_to_right_bottom(flip_opponent_occupied, flip_self_occupied, 80 - from);
            Rule::append_moves_of_board(b, from, kind, nari_mask, deny_move_mask, true, move_builder, mvs);
            proof {
                let step = board_args(b.merged_bitboard, from, kind, nari_mask, deny_move_mask, true);
                lemma_appended_trans(*move_builder, orig, before, mvs@, acc, step);
                acc = acc + step;
            }
        }
        {
            let ghost before = mvs@;
            let b = Rule::gen_candidate_bits_by_kaku_to_right_top(self_occupied, opponent_occupied, from);
            Rule::append_moves_of_board(b, from, kind, nari_mask, deny_move_mask, false, move_builder, mvs);
            proof {
                let step = board_args(b.merged_bitboard, from, kind, nari_mask, deny_move_mask, false);
                lemma_appended_trans(*move_builder, orig, before, mvs@, acc, step);
                acc = acc + step;
            }
        }
        {
            let ghost before = mvs@;
            let b = Rule::gen_candidate_bits_by_kaku_to_right_top(flip_opponent_occupied, flip_self_occupied, 80 - from);
            Rule::append_moves_of_board(b, from, kind, nari_mask, deny_move_mask, true, move_builder, mvs);
            proof {
                let step = board_args(b.merged_bitboard, from, kind, nari_mask, deny_move_mask, true);
                lemma_appended_trans(*move_builder, orig, before, mvs@, acc, step);
                acc = acc + step;
            }
        }
        {
            let ghost before = mvs@;
            let b = Rule::gen_candidate_bits_by_kaku_to_right_bottom(self_occupied, opponent_occupied, from);
            Rule::append_moves_of_board(b, from, kind, nari_mask, deny_move_mask, false, move_builder, mvs);
            proof {
                let step = board_args(b.merged_bitboard, from, kind, nari_mask, deny_move_mask, false);
                lemma_appended_trans(*move_builder, orig, before, mvs@, acc, step);
                acc = acc + step;
            }
        }
        if kind == KomaKind::SKakuN {
            let ghost before = mvs@;
            Rule::legal_moves_once_with_point_and_kind_and_bitboard_and_buffer(
                Teban::Sente, self_occupied, from, kind, nari_mask, deny_move_mask, false, move_builder, mvs,
            );
            proof {
                let step = board_args(candidate_board(Teban::Sente, self_occupied.merged_bitboard, from, kind), from, kind, nari_mask, deny_move_mask, false);
                lemma_appended_trans(*move_builder, orig, before, mvs@, acc, step);
                acc = acc + step;
            }
        } else {
            proof {
                assert(acc + seq![] =~= acc);
            }
        }
    }

    /// Adds to `mvs` the moves of gote's bishop on `from` along both diagonals, both ways, and for a promoted one its single steps.
    pub fn legal_moves_gote_kaku_with_point_and_kind_and_bitboard_and_buffer<F>(
        self_occupied: BitBoard,
        opponent_occupied: BitBoard,
        flip_self_occupied: BitBoard,
        flip_opponent_occupied: BitBoard,
        from: u32,
        kind: KomaKind,
        nari_mask: u128,
        deny_move_mask: u128,
        move_builder: &F,
        mvs: &mut Vec<LegalMove>,
    )
        where
            F: Fn(u32, u32, bool) -> LegalMove,
        requires
            from < 81,
            builder_ok(*move_builder),
        ensures
            appended_by(*move_builder, old(mvs)@, final(mvs)@, gote_kaku_args(self_occupied.merged_bitboard, opponent_occupied.merged_bitboard, flip_self_occupied.merged_bitboard, flip_opponent_occupied.merged_bitboard, from, kind, nari_mask, deny_move_mask)),
    {
        let ghost orig = mvs@;
        let ghost mut acc: Seq<(u32, u32, bool)> = seq![];
        proof {
            assert(mvs@.subrange(0, orig.len() as int) =~= orig);
        }
        {
            let ghost before = mvs@;
            let b = Rule::gen_candidate_bits_by_kaku_to_right_bottom(flip_opponent_occupied, flip_self_occupied, from);
            Rule::append_moves_of_board(b, from, kind, nari_mask, deny_move_mask, false, move_builder, mvs);
            proof {
                let step = board_args(b.merged_bitboard, from, kind, nari_mask, deny_move_mask, false);
                lemma_appended_trans(*move_builder, orig, before, mvs@, acc, step);
                acc = acc + step;
            }
        }
        {
            let ghost before = mvs@;
            let b = Rule::gen_candidate_bits_by_kaku_to_right_top(self_occupied, opponent_occupied, 80 - from);
            Rule::append_moves_of_board(b, from, kind, nari_mask, deny_move_mask, true, move_builder, mvs);
            proof {
                let step = board_args(b.merged_bitboard, from, kind, nari_mask, deny_move_mask, true);
                lemma_appended_trans(*move_builder, orig, before, mvs@, acc, step);
                acc = acc + step;
            }
        }
        {
            let ghost before = mvs@;
            let b = Rule::gen_candidate_bits_by_kaku_to_right_top(flip_opponent_occupied, flip_self_occupied, from);
            Rule::append_moves_of_board(b, from, kind, nari_mask, deny_move_mask, false, move_builder, mvs);
            proof {
                let step = board_args(b.merged_bitboard, from, kind, nari_mask, deny_move_mask, false);
                lemma_appended_trans(*move_builder, orig, before, mvs@, acc, step);
                acc = acc + step;
            }
        }
        {
            let ghost before = mvs@;
            let b = Rule::gen_candidate_bits_by_kaku_to_right_bottom(self_occupied, opponent_occupied, 80 - from);
            Rule::append_moves_of_board(b, from, kind, nari_mask, deny_move_mask, true, move_builder, mvs);
            proof {
                let step = board_args(b.merged_bitboard, from, kind, nari_mask, deny_move_mask, true);
                lemma_appended_trans(*move_builder, orig, before, mvs@, acc, step);
                acc = acc + step;
            }
        }
        if kind == KomaKind::GKakuN {
            let ghost before = mvs@;
            Rule::legal_moves_once_with_point_and_kind_and_bitboard_and_buffer(
                Teban::Gote, self_occupied, from, kind, nari_mask, deny_move_mask, true, move_builder, mvs,
            );
            proof {
                let step = board_args(candidate_board(Teban::Gote, self_occupied.merged_bitboard, from, kind), from, kind, nari_mask, deny_move_mask, true);
                lemma_appended_trans(*move_builder, orig, before, mvs@, acc, step);
                acc = acc + step;
            }
        } else {
            proof {
                assert(acc + seq![] =~= acc);
            }
        }
    }

    /// Adds to `mvs` the moves of sente's rook on `from` along its column and row, both ways, and for a promoted one its single steps.
    pub fn legal_moves_sente_hisha_with_point_and_kind_and_bitboard_and_buffer<F>(
        self_occupied: BitBoard,
        opponent_occupied: BitBoard,
        flip_self_occupied: BitBoard,
        flip_opponent_occupied: BitBoard,
        from: u32,
        kind: KomaKind,
        nari_mask: u128,
        deny_move_mask: u128,
        move_builder: &F,
        mvs: &mut Vec<LegalMove>,
    )
        where
            F: Fn(u32, u32, bool) -> LegalMove,
        requires
            from < 81,
            builder_ok(*move_builder),
        ensures
            appended_by(*move_builder, old(mvs)@, final(mvs)@, sente_hisha_args(self_occupied.merged_bitboard, opponent_occupied.merged_bitboard, flip_self_occupied.merged_bitboard, flip_opponent_occupied.merged_bitboard, from, kind, nari_mask, deny_move_mask)),
    {
        let ghost orig = mvs@;
        let ghost mut acc: Seq<(u32, u32, bool)> = seq![];
        proof {
            assert(mvs@.subrange(0, orig.len() as int) =~= orig);
        }
        {
            let ghost before = mvs@;
            let b = Rule::gen_candidate_bits_by_hisha_or_kyou_to_top(flip_opponent_occupied, flip_self_occupied, 80 - from);
            Rule::append_moves_of_board(b, from, kind, nari_mask, deny_move_mask, true, move_builder, mvs);
            proof {
                let step = board_args(b.merged_bitboard, from, kind, nari_mask, deny_move_mask, true);
                lemma_appended_trans(*move_builder, orig, before, mvs@, acc, step);
                acc = acc + step;
            }
        }
        {
            let ghost before = mvs@;
            let b = Rule::gen_candidate_bits_by_hisha_or_kyou_to_top(self_occupied, opponent_occupied, from);
            Rule::append_moves_of_board(b, from, kind, nari_mask, deny_move_mask, false, move_builder, mvs);
            proof {
                let step = board_args(b.merged_bitboard, from, kind, nari_mask, deny_move_mask, false);
                lemma_appended_trans(*move_builder, orig, before, mvs@, acc, step);
                acc = acc + step;
            }
        }
        {
            let ghost before = mvs@;
            let b = Rule::gen_candidate_bits_by_hisha_to_right(flip_opponent_occupied, flip_self_occupied, 80 - from);
            Rule::append_moves_of_board(b, from, kind, nari_mask, deny_move_mask, true, move_builder, mvs);
            proof {
                let step = board_args(b.merged_bitboard, from, kind, nari_mask, deny_move_mask, true);
                lemma_appended_trans(*move_builder, orig, before, mvs@, acc, step);
                acc = acc + step;
            }
        }
        {
            let ghost before = mvs@;
            let b = Rule::gen_candidate_bits_by_hisha_to_right(self_occupied, opponent_occupied, from);
            Rule::append_moves_of_board(b, from, kind, nari_mask, deny_move_mask, false, move_builder, mvs);
            proof {
                let step = board_args(b.merged_bitboard, from, kind, nari_mask, deny_move_mask, false);
                lemma_appended_trans(*move_builder, orig, before, mvs@, acc, step);
                acc = acc + step;
            }
        }
        if kind == KomaKind::SHishaN {
            let ghost before = mvs@;
            Rule::legal_moves_once_with_point_and_kind_and_bitboard_and_buffer(
                Teban::Sente, self_occupied, from, kind, nari_mask, deny_move_mask, false, move_builder, mvs,
            );
            proof {
                let step = board_args(candidate_board(Teban::Sente, self_occupied.merged_bitboard, from, kind), from, kind, nari_mask, deny_move_mask, false);
                lemma_appended_trans(*move_builder, orig, before, mvs@, acc, step);
                acc = acc + step;
            }
        } else {
            proof {
                assert(acc + seq![] =~= acc);
            }
        }
    }

    /// Adds to `mvs` the moves of gote's rook on `from` along its column and row, both ways, and for a promoted one its single steps.
    pub fn legal_moves_gote_hisha_with_point_and_kind_and_bitboard_and_buffer<F>(
        self_occupied: BitBoard,
        opponent_occupied: BitBoard,
        flip_self_occupied: BitBoard,
        flip_opponent_occupied: BitBoard,
        from: u32,
        kind: KomaKind,
        nari_mask: u128,
        deny_move_mask: u128,
        move_builder: &F,
        mvs: &mut Vec<LegalMove>,
    )
        where
            F: Fn(u32, u32, bool) -> LegalMove,
        requires
            from < 81,
            builder_ok(*move_builder),
        ensures
            appended_by(*move_builder, old(mvs)@, final(mvs)@, gote_hisha_args(self_occupied.merged_bitboard, opponent_occupied.merged_bitboard, flip_self_occupied.merged_bitboard, flip_opponent_occupied.merged_bitboard, from, kind, nari_mask, deny_move_mask)),
    {
        let ghost orig = mvs@;
        let ghost mut acc: Seq<(u32, u32, bool)> = seq![];
        proof {
            assert(mvs@.subrange(0, orig.len() as int) =~= orig);
        }
        {
            let ghost before = mvs@;
            let b = Rule::gen_candidate_bits_by_hisha_or_kyou_to_top(flip_opponent_occupied, flip_self_occupied, from);
            Rule::append_moves_of_board(b, from, kind, nari_mask, deny_move_mask, false, move_builder, mvs);
            proof {
                let step = board_args(b.merged_bitboard, from, kind, nari_mask, deny_move_mask, false);
                lemma_appended_trans(*move_builder, orig, before, mvs@, acc, step);
                acc = acc + step;
            }
        }
        {
            let ghost before = mvs@;
            let b = Rule::gen_candidate_bits_by_hisha_or_kyou_to_top(self_occupied, opponent_occupied, 80 - from);
            Rule::append_moves_of_board(b, from, kind, nari_mask, deny_move_mask, true, move_builder, mvs);
            proof {
                let step = board_args(b.merged_bitboard, from, kind, nari_mask, deny_move_mask, true);
                lemma_appended_trans(*move_builder, orig, before, mvs@, acc, step);
                acc = acc + step;
            }
        }
        {
            let ghost before = mvs@;
            let b = Rule::gen_candidate_bits_by_hisha_to_right(flip_opponent_occupied, flip_self_occupied, from);
            Rule::append_moves_of_board(b, from, kind, nari_mask, deny_move_mask, false, move_builder, mvs);
            proof {
                let step = board_args(b.merged_bitboard, from, kind, nari_mask, deny_move_mask, false);
                lemma_appended_trans(*move_builder, orig, before, mvs@, acc, step);
                acc = acc + step;
            }
        }
        {
            let ghost before = mvs@;
            let b = Rule::gen_candidate_bits_by_hisha_to_right(self_occupied, opponent_occupied, 80 - from);
            Rule::append_moves_of_board(b, from, kind, nari_mask, deny_move_mask, true, move_builder, mvs);
            proof {
                let step = board_args(b.merged_bitboard, from, kind, nari_mask, deny_move_mask, true);
                lemma_appended_trans(*move_builder, orig, before, mvs@, acc, step);
                acc = acc + step;
            }
        }
        if kind == KomaKind::GHishaN {
            let ghost before = mvs@;
            Rule::legal_moves_once_with_point_and_kind_and_bitboard_and_buffer(
                Teban::Gote, self_occupied, from, kind, nari_mask, deny_move_mask, true, move_builder, mvs,
            );
            proof {
                let step = board_args(candidate_board(Teban::Gote, self_occupied.merged_bitboard, from, kind), from, kind, nari_mask, deny_move_mask, true);
                lemma_appended_trans(*move_builder, orig, before, mvs@, acc, step);
                acc = acc + step;
            }
        } else {
            proof {
                assert(acc + seq![] =~= acc);
            }
        }
    }

    /// Adds to `mvs` the moves of sente's lance on `from`, up its column.
    pub fn legal_moves_sente_kyou_with_point_and_kind_and_bitboard_and_buffer<F>(
        flip_self_occupied: BitBoard,
        flip_opponent_occupied: BitBoard,
        from: u32,
        nari_mask: u128,
        deny_move_mask: u128,
        move_builder: &F,
        mvs: &mut Vec<LegalMove>,
    )
        where
            F: Fn(u32, u32, bool) -> LegalMove,
        requires
            from < 81,
            builder_ok(*move_builder),
        ensures
            appended_by(*move_builder, old(mvs)@, final(mvs)@,
                sente_kyou_args(flip_self_occupied.merged_bitboard, flip_opponent_occupied.merged_bitboard, from, nari_mask, deny_move_mask)),
    {
        let board = Rule::gen_candidate_bits_by_hisha_or_kyou_to_top(flip_opponent_occupied, flip_self_occupied, 80 - from);
        Rule::append_moves_of_board(board, from, KomaKind::SKyou, nari_mask, deny_move_mask, true, move_builder, mvs);
    }

    /// Adds to `mvs` the moves of gote's lance on `from`, down its column.
    pub fn legal_moves_gote_kyou_with_point_and_kind_and_bitboard_and_buffer<F>(
        flip_self_occupied: BitBoard,
        flip_opponent_occupied: BitBoard,
        from: u32,
        nari_mask: u128,
        deny_move_mask: u128,
        move_builder: &F,
        mvs: &mut Vec<LegalMove>,
    )
        where
            F: Fn(u32, u32, bool) -> LegalMove,
        requires
            from < 81,
            builder_ok(*move_builder),
        ensures
            appended_by(*move_builder, old(mvs)@, final(mvs)@,
                gote_kyou_args(flip_self_occupied.merged_bitboard, flip_opponent_occupied.merged_bitboard, from, nari_mask, deny_move_mask)),
    {
        let board = Rule::gen_candidate_bits_by_hisha_or_kyou_to_top(flip_opponent_occupied, flip_self_occupied, from);
        Rule::append_moves_of_board(board, from, KomaKind::GKyou, nari_mask, deny_move_mask, false, move_builder, mvs);
    }
}


/// The move the default builder makes: from `from` to `to`, promoting when
/// `nari`, capturing the piece on `to` when the opposing pieces `opp` (seen
/// from sente) hold that square.
pub open spec fn default_move_spec(b: Banmen, opp: u128, from: u32, to: u32, nari: bool) -> LegalMove {
    let o = if has_bit(opp, to + 1) { obtain_of_kind(square_kind(b, to as int)) } else { None };
    LegalMove::To(LegalMoveTo::from_parts(from, to, nari, o))
}

/// The moves the default builder makes for `args`, in order.
pub open spec fn default_moves(b: Banmen, opp: u128, args: Seq<(u32, u32, bool)>) -> Seq<LegalMove> {
    args.map_values(|a: (u32, u32, bool)| default_move_spec(b, opp, a.0, a.1, a.2))
}

impl Rule {
    /// A builder that makes the move from `from` to `to` (promoting when
    /// `nari`), with the piece captured on `to` when `opponent_bitboard`
    /// (seen from sente) holds that square.
    pub fn default_moveto_builder<'a>(banmen: &'a Banmen, opponent_bitboard: u128) -> (r: impl Fn(u32, u32, bool) -> LegalMove + 'a)
        ensures
            builder_ok(r),
            forall|from: u32, to: u32, nari: bool, m: LegalMove| #[trigger] r.ensures((from, to, nari), m)
                ==> m == default_move_spec(*banmen, opponent_bitboard, from, to, nari),
    {
        move |from: u32, to: u32, nari: bool| -> (m: LegalMove)
            requires
                to < 81,
            ensures
                m == default_move_spec(*banmen, opponent_bitboard, from, to, nari),
        {
            let to_mask: u128 = 1u128 << ((to + 1) as u128);
            proof {
                lemma_point_x(to);
                crate::rule::apply::lemma_and_bit(opponent_bitboard, (to + 1) as u128);
            }
            let (dx, dy) = to.square_to_point();
            let o = if (opponent_bitboard & to_mask) != 0 {
                match ObtainKind::try_from_koma(banmen.0[dy as usize][dx as usize]) {
                    Ok(o) => Some(o),
                    Err(_) => None,
                }
            } else {
                None
            };
            LegalMove::To(LegalMoveTo::new(from, to, nari, o))
        }
    }
}

/// With the default builder, the appended moves are exactly the default moves of the calls.
pub proof fn lemma_default_appended<F: Fn(u32, u32, bool) -> LegalMove>(
    f: F,
    b: Banmen,
    opp: u128,
    old: Seq<LegalMove>,
    new: Seq<LegalMove>,
    args: Seq<(u32, u32, bool)>,
)
    requires
        appended_by(f, old, new, args),
        forall|from: u32, to: u32, nari: bool, m: LegalMove| #[trigger] f.ensures((from, to, nari), m)
            ==> m == default_move_spec(b, opp, from, to, nari),
    ensures
        new == old + default_moves(b, opp, args),
{
    assert forall|i: int| 0 <= i < new.len() implies new[i] == (old + default_moves(b, opp, args))[i] by {
        if i < old.len() {
            assert(new[i] == new.subrange(0, old.len() as int)[i]);
        } else {
            let j = i - old.len();
            assert(f.ensures((args[j].0, args[j].1, args[j].2), new[old.len() + j]));
        }
    }
    assert(new =~= old + default_moves(b, opp, args));
}


/// The promotion mask and the mask of squares the piece may not reach unpromoted, for `kind`.
pub open spec fn kind_masks(kind: KomaKind) -> (u128, u128) {
    let i = kind_index(kind);
    if i == 0 || i == 1 { (SENTE_NARI_MASK, DENY_MOVE_SENTE_FU_AND_KYOU_MASK) }
    else if i == 2 { (SENTE_NARI_MASK, DENY_MOVE_SENTE_KEI_MASK) }
    else if i == 3 || i == 5 || i == 6 { (SENTE_NARI_MASK, 0) }
    else if i == 14 || i == 15 { (GOTE_NARI_MASK, DENY_MOVE_GOTE_FU_AND_KYOU_MASK) }
    else if i == 16 { (GOTE_NARI_MASK, DENY_MOVE_GOTE_KEI_MASK) }
    else if i == 17 || i == 19 || i == 20 { (GOTE_NARI_MASK, 0) }
    else { (0, 0) }
}

/// The kinds that move one step at a time (or jump, for the knight).
pub open spec fn steps_once(kind: KomaKind) -> bool {
    let i = kind_index(kind);
    i == 0 || i == 2 || i == 3 || i == 4 || i == 7 || (8 <= i <= 11)
        || i == 14 || i == 16 || i == 17 || i == 18 || i == 21 || (22 <= i <= 25)
}

/// The opposing pieces, seen from sente, for the side of `kind`.
pub open spec fn point_kind_opp(p: PartialState, kind: KomaKind) -> u128 {
    if kind_index(kind) < 14 { p.sente_opponent_board.merged_bitboard } else { p.sente_self_board.merged_bitboard }
}

/// The builder calls for a piece of `kind` on `from`, moved by side `t`
/// (none when the piece is not the side's, or the square is empty).
pub open spec fn point_kind_args(t: Teban, p: PartialState, from: u32, kind: KomaKind) -> Seq<(u32, u32, bool)> {
    let i = kind_index(kind);
    let nm = kind_masks(kind).0;
    let dm = kind_masks(kind).1;
    let ss = p.sente_self_board.merged_bitboard;
    let so = p.sente_opponent_board.merged_bitboard;
    let gs = p.gote_self_board.merged_bitboard;
    let go = p.gote_opponent_board.merged_bitboard;
    if i >= 28 {
        seq![]
    } else if steps_once(kind) {
        if (t == Teban::Sente && i >= 14) || (t == Teban::Gote && i < 14) {
            seq![]
        } else {
            board_args(candidate_board(t, if i < 14 { ss } else { gs }, from, kind), from, kind, nm, dm, i >= 14)
        }
    } else if i == 1 && t == Teban::Sente {
        sente_kyou_args(gs, go, from, nm, dm)
    } else if (i == 5 || i == 12) && t == Teban::Sente {
        sente_kaku_args(ss, so, gs, go, from, kind, nm, dm)
    } else if (i == 6 || i == 13) && t == Teban::Sente {
        sente_hisha_args(ss, so, gs, go, from, kind, nm, dm)
    } else if i == 15 && t == Teban::Gote {
        gote_kyou_args(ss, so, from, nm, dm)
    } else if (i == 19 || i == 26) && t == Teban::Gote {
        gote_kaku_args(gs, go, ss, so, from, kind, nm, dm)
    } else if (i == 20 || i == 27) && t == Teban::Gote {
        gote_hisha_args(gs, go, ss, so, from, kind, nm, dm)
    } else {
        seq![]
    }
}

/// The moves side `t` has with a piece of `kind` on `from`, as generated.
pub open spec fn point_kind_moves(t: Teban, state: State, from: u32, kind: KomaKind) -> Seq<LegalMove> {
    default_moves(state.banmen_spec(), point_kind_opp(state.part_spec(), kind), point_kind_args(t, state.part_spec(), from, kind))
}

impl Rule {
    /// Adds to `mvs` the moves side `t` has with a piece of `kind` standing on
    /// column `x`, row `y` (counted from 0 at the top left).
    pub fn legal_moves_with_point_and_kind_and_buffer(
        t: Teban,
        state: &State,
        x: u32,
        y: u32,
        kind: KomaKind,
        mvs: &mut Vec<LegalMove>,
    )
        requires
            x < 9,
            y < 9,
        ensures
            final(mvs)@ == old(mvs)@ + point_kind_moves(t, *state, (x * 9 + y) as u32, kind),
    {
        let from = x * 9 + y;
        let ghost old_mvs = mvs@;
        let i = kind.to_index();
        let (nari_mask, deny_move_mask): (u128, u128) = if i == 0 || i == 1 {
            (SENTE_NARI_MASK, DENY_MOVE_SENTE_FU_AND_KYOU_MASK)
        } else if i == 2 {
            (SENTE_NARI_MASK, DENY_MOVE_SENTE_KEI_MASK)
        } else if i == 3 || i == 5 || i == 6 {
            (SENTE_NARI_MASK, 0)
        } else if i == 14 || i == 15 {
            (GOTE_NARI_MASK, DENY_MOVE_GOTE_FU_AND_KYOU_MASK)
        } else if i == 16 {
            (GOTE_NARI_MASK, DENY_MOVE_GOTE_KEI_MASK)
        } else if i == 17 || i == 19 || i == 20 {
            (GOTE_NARI_MASK, 0)
        } else if i < 28 {
            (0, 0)
        } else {
            proof {
                assert(mvs@ =~= old_mvs + point_kind_moves(t, *state, from, kind));
            }
            return;
        };
        let part = state.get_part();
        let (self_bitboard, opponent_bitboard) = if i < 14 {
            (part.sente_self_board, part.sente_opponent_board.merged_bitboard)
        } else {
            (part.gote_self_board, part.sente_self_board.merged_bitboard)
        };
        let builder = Rule::default_moveto_builder(state.get_banmen(), opponent_bitboard);
        let ghost args = point_kind_args(t, state.part_spec(), from, kind);
        let once = i == 0 || i == 2 || i == 3 || i == 4 || i == 7 || (8 <= i && i <= 11)
            || i == 14 || i == 16 || i == 17 || i == 18 || i == 21 || (22 <= i && i <= 25);
        if once {
            if (t == Teban::Sente && i >= 14) || (t == Teban::Gote && i < 14) {
                proof {
                    assert(mvs@ =~= old_mvs + point_kind_moves(t, *state, from, kind));
                }
                return;
            }
            Rule::legal_moves_once_with_point_and_kind_and_bitboard_and_buffer(
                t, self_bitboard, from, kind, nari_mask, deny_move_mask, i >= 14, &builder, mvs,
            );
        } else if i == 1 && t == Teban::Sente {
            Rule::legal_moves_sente_kyou_with_point_and_kind_and_bitboard_and_buffer(
                part.gote_self_board, part.gote_opponent_board, from, nari_mask, deny_move_mask, &builder, mvs,
            );
        } else if (i == 5 || i == 12) && t == Teban::Sente {
            Rule::legal_moves_sente_kaku_with_point_and_kind_and_bitboard_and_buffer(
                part.sente_self_board, part.sente_opponent_board, part.gote_self_board, part.gote_opponent_board,
                from, kind, nari_mask, deny_move_mask, &builder, mvs,
            );
        } else if (i == 6 || i == 13) && t == Teban::Sente {
            Rule::legal_moves_sente_hisha_with_point_and_kind_and_bitboard_and_buffer(
                part.sente_self_board, part.sente_opponent_board, part.gote_self_board, part.gote_opponent_board,
                from, kind, nari_mask, deny_move_mask, &builder, mvs,
            );
        } else if i == 15 && t == Teban::Gote {
            Rule::legal_moves_gote_kyou_with_point_and_kind_and_bitboard_and_buffer(
                part.sente_self_board, part.sente_opponent_board, from, nari_mask, deny_move_mask, &builder, mvs,
            );
        } else if (i == 19 || i == 26) && t == Teban::Gote {
            Rule::legal_moves_gote_kaku_with_point_and_kind_and_bitboard_and_buffer(
                part.gote_self_board, part.gote_opponent_board, part.sente_self_board, part.sente_opponent_board,
                from, kind, nari_mask, deny_move_mask, &builder, mvs,
            );
        } else if (i == 20 || i == 27) && t == Teban::Gote {
            Rule::legal_moves_gote_hisha_with_point_and_kind_and_bitboard_and_buffer(
                part.gote_self_board, part.gote_opponent_board, part.sente_self_board, part.sente_opponent_board,
                from, kind, nari_mask, deny_move_mask, &builder, mvs,
            );
        } else {
            proof {
                assert(mvs@ =~= old_mvs + point_kind_moves(t, *state, from, kind));
            }
            return;
        }
        proof {
            lemma_default_appended(builder, state.banmen_spec(), point_kind_opp(state.part_spec(), kind), old_mvs, mvs@, args);
        }
    }

    /// The moves side `t` has with a piece of `kind` standing on column `x`, row `y`.
    pub fn legal_moves_with_point_and_kind(t: Teban, state: &State, x: u32, y: u32, kind: KomaKind) -> (r: Vec<LegalMove>)
        requires
            x < 9,
            y < 9,
        ensures
            r@ == point_kind_moves(t, *state, (x * 9 + y) as u32, kind),
    {
        let mut mvs: Vec<LegalMove> = Vec::new();
        Rule::legal_moves_with_point_and_kind_and_buffer(t, state, x, y, kind, &mut mvs);
        proof {
            assert(mvs@ =~= point_kind_moves(t, *state, (x * 9 + y) as u32, kind));
        }
        mvs
    }

    /// The moves side `t` has with the piece standing on column `x`, row `y`.
    pub fn legal_moves_with_point(t: Teban, state: &State, x: u32, y: u32) -> (r: Vec<LegalMove>)
        requires
            x < 9,
            y < 9,
        ensures
            r@ == point_kind_moves(t, *state, (x * 9 + y) as u32, square_kind(state.banmen_spec(), (x * 9 + y) as int)),
    {
        proof {
            let s = (x * 9 + y) as int;
            assert(s / 9 == x && s % 9 == y) by {
                vstd::arithmetic::div_mod::lemma_fundamental_div_mod_converse(s, 9, x as int, y as int);
            }
        }
        let kind = state.get_banmen().0[y as usize][x as usize];
        Rule::legal_moves_with_point_and_kind(t, state, x, y, kind)
    }

    /// The moves side `t` has with the piece on the origin `src` (counted from 1, column from the right).
    pub fn legal_moves_with_src(t: Teban, state: &State, src: crate::shogi::KomaSrcPosition) -> (r: Vec<LegalMove>)
        requires
            1 <= src.0 <= 9,
            1 <= src.1 <= 9,
        ensures
            r@ == point_kind_moves(t, *state, ((9 - src.0) * 9 + (src.1 - 1)) as u32,
                square_kind(state.banmen_spec(), (9 - src.0) * 9 + (src.1 - 1))),
    {
        Rule::legal_moves_with_point(t, state, 9 - src.0, src.1 - 1)
    }

    /// The moves side `t` has with the piece standing on the square `dst` names.
    pub fn legal_moves_with_dst_to(t: Teban, state: &State, dst: crate::shogi::KomaDstToPosition) -> (r: Vec<LegalMove>)
        requires
            1 <= dst.0 <= 9,
            1 <= dst.1 <= 9,
        ensures
            r@ == point_kind_moves(t, *state, ((9 - dst.0) * 9 + (dst.1 - 1)) as u32,
                square_kind(state.banmen_spec(), (9 - dst.0) * 9 + (dst.1 - 1))),
    {
        Rule::legal_moves_with_point(t, state, 9 - dst.0, dst.1 - 1)
    }

    /// The moves side `t` has with the piece standing on the square `dst` names.
    pub fn legal_moves_with_dst_put(t: Teban, state: &State, dst: crate::shogi::KomaDstPutPosition) -> (r: Vec<LegalMove>)
        requires
            1 <= dst.0 <= 9,
            1 <= dst.1 <= 9,
        ensures
            r@ == point_kind_moves(t, *state, ((9 - dst.0) * 9 + (dst.1 - 1)) as u32,
                square_kind(state.banmen_spec(), (9 - dst.0) * 9 + (dst.1 - 1))),
    {
        Rule::legal_moves_with_point(t, state, 9 - dst.0, dst.1 - 1)
    }
}


/// The moves side `t` has with the pieces marked in `board`, squares taken
/// lowest first (`asc`) or highest first, over the first `n` squares of that
/// order. A square is marked at bit `81 - s` when `inverted`, at bit `s + 1`
/// otherwise; the piece counts as `nari` when `nari_board` marks it (bit `s + 1`).
pub open spec fn squares_moves(
    t: Teban,
    state: State,
    board: u128,
    inverted: bool,
    asc: bool,
    plain: KomaKind,
    nari: KomaKind,
    nari_board: u128,
    n: int,
) -> Seq<LegalMove>
    decreases n,
{
    if n <= 0 {
        seq![]
    } else {
        let prev = squares_moves(t, state, board, inverted, asc, plain, nari, nari_board, n - 1);
        let s = if asc { n - 1 } else { 81 - n };
        let pos = if inverted { 81 - s } else { s + 1 };
        if has_bit(board, pos) {
            prev + point_kind_moves(t, state, s as u32, if has_bit(nari_board, s + 1) { nari } else { plain })
        } else {
            prev
        }
    }
}

/// The moves side `t` has with all its pieces on the board, piece kind by
/// piece kind (pawns, lances, knights, silvers, golds, bishops, rooks, king),
/// sente's squares lowest first and gote's highest first.
pub open spec fn banmen_moves(t: Teban, state: State) -> Seq<LegalMove> {
    let p = state.part_spec();
    if t == Teban::Sente {
        let nb = p.sente_nari_board.merged_bitboard;
        squares_moves(t, state, p.sente_fu_board.merged_bitboard, false, true, KomaKind::SFu, KomaKind::SFuN, nb, 81)
        + squares_moves(t, state, p.sente_kyou_board.merged_bitboard, false, true, KomaKind::SKyou, KomaKind::SKyouN, nb, 81)
        + squares_moves(t, state, p.sente_kei_board.merged_bitboard, false, true, KomaKind::SKei, KomaKind::SKeiN, nb, 81)
        + squares_moves(t, state, p.sente_gin_board.merged_bitboard, false, true, KomaKind::SGin, KomaKind::SGinN, nb, 81)
        + squares_moves(t, state, p.sente_kin_board.merged_bitboard, false, true, KomaKind::SKin, KomaKind::SKin, nb, 81)
        + squares_moves(t, state, p.sente_kaku_board.merged_bitboard, false, true, KomaKind::SKaku, KomaKind::SKakuN, nb, 81)
        + squares_moves(t, state, p.sente_hisha_board.merged_bitboard, false, true, KomaKind::SHisha, KomaKind::SHishaN, nb, 81)
        + squares_moves(t, state, p.gote_opponent_ou_position_board.merged_bitboard, true, true, KomaKind::SOu, KomaKind::SOu, nb, 81)
    } else {
        let nb = p.gote_nari_board.merged_bitboard;
        squares_moves(t, state, p.gote_fu_board.merged_bitboard, false, false, KomaKind::GFu, KomaKind::GFuN, nb, 81)
        + squares_moves(t, state, p.gote_kyou_board.merged_bitboard, false, false, KomaKind::GKyou, KomaKind::GKyouN, nb, 81)
        + squares_moves(t, state, p.gote_kei_board.merged_bitboard, false, false, KomaKind::GKei, KomaKind::GKeiN, nb, 81)
        + squares_moves(t, state, p.gote_gin_board.merged_bitboard, false, false, KomaKind::GGin, KomaKind::GGinN, nb, 81)
        + squares_moves(t, state, p.gote_kin_board.merged_bitboard, false, false, KomaKind::GKin, KomaKind::GKin, nb, 81)
        + squares_moves(t, state, p.gote_kaku_board.merged_bitboard, false, false, KomaKind::GKaku, KomaKind::GKakuN, nb, 81)
        + squares_moves(t, state, p.gote_hisha_board.merged_bitboard, false, false, KomaKind::GHisha, KomaKind::GHishaN, nb, 81)
        + squares_moves(t, state, p.sente_opponent_ou_position_board.merged_bitboard, false, false, KomaKind::GOu, KomaKind::GOu, nb, 81)
    }
}

impl Rule {
    /// Adds to `mvs` the moves side `t` has with the pieces marked in `board`, square by square.
    #[verifier::rlimit(40)]
    fn append_piece_board_moves(
        t: Teban,
        state: &State,
        board: u128,
        inverted: bool,
        asc: bool,
        plain: KomaKind,
        nari: KomaKind,
        nari_board: u128,
        mvs: &mut Vec<LegalMove>,
    )
        ensures
            final(mvs)@ == old(mvs)@ + squares_moves(t, *state, board, inverted, asc, plain, nari, nari_board, 81),
    {
        let ghost orig = mvs@;
        let mut n: u32 = 0;
        proof {
            assert(mvs@ =~= orig + squares_moves(t, *state, board, inverted, asc, plain, nari, nari_board, 0));
        }
        while n < 81
            invariant
                n <= 81,
                mvs@ == orig + squares_moves(t, *state, board, inverted, asc, plain, nari, nari_board, n as int),
            decreases 81 - n,
        {
            let s: u32 = if asc { n } else { 80 - n };
            let pos: u32 = if inverted { 81 - s } else { s + 1 };
            let ghost before = mvs@;
            proof {
                crate::rule::apply::lemma_and_bit(board, pos as u128);
                crate::rule::apply::lemma_and_bit(nari_board, (s + 1) as u128);
                lemma_point_x(s);
                vstd::arithmetic::div_mod::lemma_fundamental_div_mod(s as int, 9);
            }
            if (board & (1u128 << (pos as u128))) != 0 {
                let kind = if (nari_board & (1u128 << ((s + 1) as u128))) == 0 { plain } else { nari };
                let (x, y) = s.square_to_point();
                Rule::legal_moves_with_point_and_kind_and_buffer(t, state, x, y, kind, mvs);
                proof {
                    assert(mvs@ =~= orig + squares_moves(t, *state, board, inverted, asc, plain, nari, nari_board, n + 1));
                }
            }
            n = n + 1;
        }
    }

    /// Adds to `mvs` the moves side `t` has with its pieces on the board.
    pub fn legal_moves_from_banmen_with_buffer(t: Teban, state: &State, mvs: &mut Vec<LegalMove>)
        ensures
            final(mvs)@ == old(mvs)@ + banmen_moves(t, *state),
    {
        let ghost orig = mvs@;
        let p = state.get_part();
        if t == Teban::Sente {
            let nb = p.sente_nari_board.merged_bitboard;
            Rule::append_piece_board_moves(t, state, p.sente_fu_board.merged_bitboard, false, true, KomaKind::SFu, KomaKind::SFuN, nb, mvs);
            Rule::append_piece_board_moves(t, state, p.sente_kyou_board.merged_bitboard, false, true, KomaKind::SKyou, KomaKind::SKyouN, nb, mvs);
            Rule::append_piece_board_moves(t, state, p.sente_kei_board.merged_bitboard, false, true, KomaKind::SKei, KomaKind::SKeiN, nb, mvs);
            Rule::append_piece_board_moves(t, state, p.sente_gin_board.merged_bitboard, false, true, KomaKind::SGin, KomaKind::SGinN, nb, mvs);
            Rule::append_piece_board_moves(t, state, p.sente_kin_board.merged_bitboard, false, true, KomaKind::SKin, KomaKind::SKin, nb, mvs);
            Rule::append_piece_board_moves(t, state, p.sente_kaku_board.merged_bitboard, false, true, KomaKind::SKaku, KomaKind::SKakuN, nb, mvs);
            Rule::append_piece_board_moves(t, state, p.sente_hisha_board.merged_bitboard, false, true, KomaKind::SHisha, KomaKind::SHishaN, nb, mvs);
            Rule::append_piece_board_moves(t, state, p.gote_opponent_ou_position_board.merged_bitboard, true, true, KomaKind::SOu, KomaKind::SOu, nb, mvs);
        } else {
            let nb = p.gote_nari_board.merged_bitboard;
            Rule::append_piece_board_moves(t, state, p.gote_fu_board.merged_bitboard, false, false, KomaKind::GFu, KomaKind::GFuN, nb, mvs);
            Rule::append_piece_board_moves(t, state, p.gote_kyou_board.merged_bitboard, false, false, KomaKind::GKyou, KomaKind::GKyouN, nb, mvs);
            Rule::append_piece_board_moves(t, state, p.gote_kei_board.merged_bitboard, false, false, KomaKind::GKei, KomaKind::GKeiN, nb, mvs);
            Rule::append_piece_board_moves(t, state, p.gote_gin_board.merged_bitboard, false, false, KomaKind::GGin, KomaKind::GGinN, nb, mvs);
            Rule::append_piece_board_moves(t, state, p.gote_kin_board.merged_bitboard, false, false, KomaKind::GKin, KomaKind::GKin, nb, mvs);
            Rule::append_piece_board_moves(t, state, p.gote_kaku_board.merged_bitboard, false, false, KomaKind::GKaku, KomaKind::GKakuN, nb, mvs);
            Rule::append_piece_board_moves(t, state, p.gote_hisha_board.merged_bitboard, false, false, KomaKind::GHisha, KomaKind::GHishaN, nb, mvs);
            Rule::append_piece_board_moves(t, state, p.sente_opponent_ou_position_board.merged_bitboard, false, false, KomaKind::GOu, KomaKind::GOu, nb, mvs);
        }
        proof {
            assert(mvs@ =~= orig + banmen_moves(t, *state));
        }
    }

    /// The moves side `t` has with its pieces on the board.
    pub fn legal_moves_from_banmen(t: Teban, state: &State) -> (r: Vec<LegalMove>)
        ensures
            r@ == banmen_moves(t, *state),
    {
        let mut mvs: Vec<LegalMove> = Vec::new();
        Rule::legal_moves_from_banmen_with_buffer(t, state, &mut mvs);
        proof {
            assert(mvs@ =~= banmen_moves(t, *state));
        }
        mvs
    }
}


/// Squares a dropped piece of kind `k` may not reach for side `t`.
pub open spec fn drop_deny_mask(t: Teban, k: MochigomaKind) -> u128 {
    if t == Teban::Sente {
        if k == MochigomaKind::Fu || k == MochigomaKind::Kyou {
            DENY_MOVE_SENTE_FU_AND_KYOU_MASK
        } else if k == MochigomaKind::Kei {
            DENY_MOVE_SENTE_KEI_MASK
        } else {
            0
        }
    } else {
        if k == MochigomaKind::Fu || k == MochigomaKind::Kyou {
            DENY_MOVE_GOTE_FU_AND_KYOU_MASK
        } else if k == MochigomaKind::Kei {
            DENY_MOVE_GOTE_KEI_MASK
        } else {
            0
        }
    }
}

/// Side `t` may drop a piece of kind `k` on square `s`: the square is empty,
/// the piece could still move from there, and a pawn is not dropped on a
/// column that already holds one of the side's unpromoted pawns.
pub open spec fn drop_allowed(t: Teban, p: PartialState, k: MochigomaKind, s: int) -> bool {
    let empty = if t == Teban::Sente {
        !has_bit(p.sente_self_board.merged_bitboard | p.sente_opponent_board.merged_bitboard, s + 1)
    } else {
        !has_bit(p.gote_self_board.merged_bitboard | p.gote_opponent_board.merged_bitboard, 81 - s)
    };
    let fu = if t == Teban::Sente {
        (p.sente_fu_board.merged_bitboard & !p.sente_nari_board.merged_bitboard) >> 1u128
    } else {
        (p.gote_fu_board.merged_bitboard & !p.gote_nari_board.merged_bitboard) >> 1u128
    };
    &&& empty
    &&& (drop_deny_mask(t, k) & (1u128 << (s as u128))) == 0
    &&& !(k == MochigomaKind::Fu && (fu & (0b111111111u128 << ((s / 9 * 9) as u128))) != 0)
}

/// The drops of kind `k` for side `t` over the first `n` squares (sente's
/// lowest first, gote's highest first).
pub open spec fn kind_drops(t: Teban, p: PartialState, k: MochigomaKind, n: int) -> Seq<LegalMove>
    decreases n,
{
    if n <= 0 {
        seq![]
    } else {
        let prev = kind_drops(t, p, k, n - 1);
        let s = if t == Teban::Sente { n - 1 } else { 81 - n };
        if drop_allowed(t, p, k, s) {
            prev.push(LegalMove::Put(LegalMovePut::from_parts(k, s as u32)))
        } else {
            prev
        }
    }
}

/// The drops for the first `n` kinds in hand (by index), skipping kinds with none in hand.
pub open spec fn hand_drops(t: Teban, p: PartialState, hand: Seq<u32>, n: int) -> Seq<LegalMove>
    decreases n,
{
    if n <= 0 {
        seq![]
    } else {
        hand_drops(t, p, hand, n - 1) + (if hand[n - 1] == 0 {
            seq![]
        } else {
            kind_drops(t, p, mochigoma_of_index(n - 1), 81)
        })
    }
}

/// The drops side `t` has with its pieces in hand.
pub open spec fn mochigoma_moves(t: Teban, state: State, mc: MochigomaCollections) -> Seq<LegalMove> {
    match mc {
        MochigomaCollections::Empty => seq![],
        MochigomaCollections::Pair(ms, mg) => hand_drops(t, state.part_spec(), if t == Teban::Sente { ms@ } else { mg@ }, 7),
    }
}

/// A piece of kind `k` dropped by side `t` on square `s` (row `s % 9`, 0 at
/// the top) could still move from there: no sente pawn or lance on the top
/// row, no sente knight on the two top rows, and the same at the bottom for gote.
pub open spec fn drop_leaves_a_move(t: Teban, k: MochigomaKind, s: int) -> bool {
    let y = s % 9;
    if t == Teban::Sente {
        &&& (k == MochigomaKind::Fu || k == MochigomaKind::Kyou) ==> y != 0
        &&& k == MochigomaKind::Kei ==> y >= 2
    } else {
        &&& (k == MochigomaKind::Fu || k == MochigomaKind::Kyou) ==> y != 8
        &&& k == MochigomaKind::Kei ==> y <= 6
    }
}

/// A square outside the deny mask of kind `k` for side `t` leaves the piece a move.
pub proof fn lemma_deny_mask_rows(t: Teban, k: MochigomaKind, s: int)
    requires
        0 <= s < 81,
        (drop_deny_mask(t, k) & (1u128 << (s as u128))) == 0,
    ensures
        drop_leaves_a_move(t, k, s),
{
    let x = s / 9;
    let y = s % 9;
    assert(x * 9 + y == s) by {
        vstd::arithmetic::div_mod::lemma_fundamental_div_mod(s, 9);
    }
    crate::rule::masks::lemma_deny_rows(x as u128, y as u128);
    assert((x as u128) * 9 + (y as u128) == s as u128);
}

/// Every drop among `kind_drops(t, p, k, n)` drops a piece of kind `k` on a
/// square of the board where it could still move.
proof fn lemma_kind_drops_leave_a_move(t: Teban, p: PartialState, k: MochigomaKind, n: int)
    requires
        n <= 81,
    ensures
        forall|i: int| 0 <= i < kind_drops(t, p, k, n).len() ==> (#[trigger] kind_drops(t, p, k, n)[i] matches LegalMove::Put(mp)
            && mp.kind_spec() == k && mp.dst_spec() < 81 && drop_leaves_a_move(t, k, mp.dst_spec() as int)),
    decreases n,
{
    if n > 0 {
        lemma_kind_drops_leave_a_move(t, p, k, n - 1);
        let s = if t == Teban::Sente { n - 1 } else { 81 - n };
        if drop_allowed(t, p, k, s) {
            crate::rule::lemma_put_parts(k, s as u32);
            lemma_deny_mask_rows(t, k, s);
            let prev = kind_drops(t, p, k, n - 1);
            assert forall|i: int| 0 <= i < kind_drops(t, p, k, n).len() implies (#[trigger] kind_drops(t, p, k, n)[i]
                matches LegalMove::Put(mp) && mp.kind_spec() == k && mp.dst_spec() < 81
                && drop_leaves_a_move(t, k, mp.dst_spec() as int)) by {
                if i < prev.len() {
                    assert(kind_drops(t, p, k, n)[i] == prev[i]);
                }
            }
        }
    }
}

/// Every drop among `hand_drops(t, p, hand, n)` drops a piece on a square of
/// the board where it could still move.
proof fn lemma_hand_drops_leave_a_move(t: Teban, p: PartialState, hand: Seq<u32>, n: int)
    requires
        n <= 7,
    ensures
        forall|i: int| 0 <= i < hand_drops(t, p, hand, n).len() ==> (#[trigger] hand_drops(t, p, hand, n)[i] matches LegalMove::Put(mp)
            && mp.dst_spec() < 81 && drop_leaves_a_move(t, mp.kind_spec(), mp.dst_spec() as int)),
    decreases n,
{
    if n > 0 {
        lemma_hand_drops_leave_a_move(t, p, hand, n - 1);
        let prev = hand_drops(t, p, hand, n - 1);
        let more = if hand[n - 1] == 0 { seq![] } else { kind_drops(t, p, mochigoma_of_index(n - 1), 81) };
        lemma_kind_drops_leave_a_move(t, p, mochigoma_of_index(n - 1), 81);
        assert forall|i: int| 0 <= i < hand_drops(t, p, hand, n).len() implies (#[trigger] hand_drops(t, p, hand, n)[i]
            matches LegalMove::Put(mp) && mp.dst_spec() < 81 && drop_leaves_a_move(t, mp.kind_spec(), mp.dst_spec() as int)) by {
            assert(hand_drops(t, p, hand, n) == prev + more);
            if i < prev.len() {
                assert(hand_drops(t, p, hand, n)[i] == prev[i]);
            } else {
                assert(hand_drops(t, p, hand, n)[i] == more[i - prev.len()]);
            }
        }
    }
}

/// Every drop that the drop generator lists puts the piece on a square of the
/// board where it could still move: no sente pawn or lance on the top row, no
/// sente knight on the two top rows, and the same at the bottom for gote.
pub proof fn law_drops_leave_a_move(t: Teban, state: State, mc: MochigomaCollections)
    ensures
        forall|i: int| 0 <= i < mochigoma_moves(t, state, mc).len() ==> (#[trigger] mochigoma_moves(t, state, mc)[i]
            matches LegalMove::Put(mp) && mp.dst_spec() < 81 && drop_leaves_a_move(t, mp.kind_spec(), mp.dst_spec() as int)),
{
    match mc {
        MochigomaCollections::Empty => {},
        MochigomaCollections::Pair(ms, mg) => {
            lemma_hand_drops_leave_a_move(t, state.part_spec(), if t == Teban::Sente { ms@ } else { mg@ }, 7);
        },
    }
}

/// Squares a dropped piece may not reach.
fn drop_deny_mask_exec(t: Teban, k: MochigomaKind) -> (r: u128)
    ensures
        r == drop_deny_mask(t, k),
{
    match t {
        Teban::Sente => match k {
            MochigomaKind::Fu | MochigomaKind::Kyou => DENY_MOVE_SENTE_FU_AND_KYOU_MASK,
            MochigomaKind::Kei => DENY_MOVE_SENTE_KEI_MASK,
            _ => 0,
        },
        Teban::Gote => match k {
            MochigomaKind::Fu | MochigomaKind::Kyou => DENY_MOVE_GOTE_FU_AND_KYOU_MASK,
            MochigomaKind::Kei => DENY_MOVE_GOTE_KEI_MASK,
            _ => 0,
        },
    }
}

impl Rule {
    /// Adds to `mvs` the drops of kind `k` side `t` may make.
    fn append_kind_drops(t: Teban, part: &PartialState, k: MochigomaKind, mvs: &mut Vec<LegalMove>)
        ensures
            final(mvs)@ == old(mvs)@ + kind_drops(t, *part, k, 81),
    {
        let ghost orig = mvs@;
        let deny = drop_deny_mask_exec(t, k);
        let (occupied, fu_bitboard) = if t == Teban::Sente {
            (part.sente_self_board.merged_bitboard | part.sente_opponent_board.merged_bitboard, (part.sente_fu_board.merged_bitboard & !part.sente_nari_board.merged_bitboard) >> 1u128)
        } else {
            (part.gote_self_board.merged_bitboard | part.gote_opponent_board.merged_bitboard, (part.gote_fu_board.merged_bitboard & !part.gote_nari_board.merged_bitboard) >> 1u128)
        };
        let mut n: u32 = 0;
        proof {
            assert(mvs@ =~= orig + kind_drops(t, *part, k, 0));
        }
        while n < 81
            invariant
                n <= 81,
                deny == drop_deny_mask(t, k),
                t == Teban::Sente ==> occupied == part.sente_self_board.merged_bitboard | part.sente_opponent_board.merged_bitboard,
                t == Teban::Gote ==> occupied == part.gote_self_board.merged_bitboard | part.gote_opponent_board.merged_bitboard,
                t == Teban::Sente ==> fu_bitboard == (part.sente_fu_board.merged_bitboard & !part.sente_nari_board.merged_bitboard) >> 1u128,
                t == Teban::Gote ==> fu_bitboard == (part.gote_fu_board.merged_bitboard & !part.gote_nari_board.merged_bitboard) >> 1u128,
                mvs@ == orig + kind_drops(t, *part, k, n as int),
            decreases 81 - n,
        {
            let s: u32 = if t == Teban::Sente { n } else { 80 - n };
            let pos: u32 = if t == Teban::Sente { s + 1 } else { 81 - s };
            proof {
                crate::rule::apply::lemma_and_bit(occupied, pos as u128);
                lemma_point_x(s);
            }
            let empty = (occupied & (1u128 << (pos as u128))) == 0;
            let x = s * 114 / 1024;
            let p_mask: u128 = 1u128 << (s as u128);
            let denied = (deny & p_mask) != 0;
            let nifu = k == MochigomaKind::Fu && (fu_bitboard & (0b111111111u128 << ((x * 9) as u128))) != 0;
            if empty && !denied && !nifu {
                mvs.push(LegalMove::Put(LegalMovePut::new(k, s)));
            }
            proof {
                assert(mvs@ =~= orig + kind_drops(t, *part, k, n + 1));
            }
            n = n + 1;
        }
    }

    /// Adds to `mvs` the drops side `t` may make with its pieces in hand, kind
    /// by kind (pawn first), skipping kinds it has none of.
    pub fn legal_moves_from_mochigoma_with_buffer(t: Teban, mc: &MochigomaCollections, state: &State, mvs: &mut Vec<LegalMove>)
        ensures
            final(mvs)@ == old(mvs)@ + mochigoma_moves(t, *state, *mc),
    {
        let ghost orig = mvs@;
        let hand = match mc {
            MochigomaCollections::Pair(ms, mg) => match t {
                Teban::Sente => ms,
                Teban::Gote => mg,
            },
            MochigomaCollections::Empty => {
                proof {
                    assert(mvs@ =~= orig + mochigoma_moves(t, *state, *mc));
                }
                return;
            },
        };
        let part = state.get_part();
        let mut i: u32 = 0;
        proof {
            crate::shogi::lemma_mochigoma_len(*hand);
            assert(mvs@ =~= orig + hand_drops(t, state.part_spec(), hand@, 0));
        }
        while i < 7
            invariant
                i <= 7,
                hand@.len() == 7,
                mvs@ == orig + hand_drops(t, state.part_spec(), hand@, i as int),
                *part == state.part_spec(),
            decreases 7 - i,
        {
            let k = MochigomaKind::from_index(i);
            let count = hand.get(k);
            if count != 0 {
                Rule::append_kind_drops(t, part, k, mvs);
            }
            proof {
                assert(mvs@ =~= orig + hand_drops(t, state.part_spec(), hand@, i + 1));
            }
            i = i + 1;
        }
        proof {
            assert(mvs@ =~= orig + mochigoma_moves(t, *state, *mc));
        }
    }

    /// The drops side `t` may make with its pieces in hand.
    pub fn legal_moves_from_mochigoma(t: Teban, mc: &MochigomaCollections, state: &State) -> (r: Vec<LegalMove>)
        ensures
            r@ == mochigoma_moves(t, *state, *mc),
    {
        let mut mvs: Vec<LegalMove> = Vec::new();
        Rule::legal_moves_from_mochigoma_with_buffer(t, mc, state, &mut mvs);
        proof {
            assert(mvs@ =~= mochigoma_moves(t, *state, *mc));
        }
        mvs
    }

    /// Every move side `t` has: moves on the board, then drops.
    pub fn legal_moves_all(t: Teban, state: &State, mc: &MochigomaCollections) -> (r: Vec<LegalMove>)
        ensures
            r@ == banmen_moves(t, *state) + mochigoma_moves(t, *state, *mc),
    {
        let mut mvs: Vec<LegalMove> = Vec::new();
        Rule::legal_moves_from_banmen_with_buffer(t, state, &mut mvs);
        Rule::legal_moves_from_mochigoma_with_buffer(t, mc, state, &mut mvs);
        proof {
            assert(mvs@ =~= banmen_moves(t, *state) + mochigoma_moves(t, *state, *mc));
        }
        mvs
    }
}

} // verus!
