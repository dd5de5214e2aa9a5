//! The board together with the bitboards that move generation reads.
use vstd::prelude::*;
use crate::bitboard::{BitBoard, has_bit};
use crate::shogi::{KomaKind, Banmen, banmen_at, kind_index};

verus! {

/// The kind standing on square `s = x * 9 + y`.
pub open spec fn square_kind(b: Banmen, s: int) -> KomaKind {
    banmen_at(b, s / 9, s % 9)
}

/// The bitboards kept beside a board. Sente's boards put square `s` at bit
/// `s + 1`; the boards seen from gote (`gote_self_board`,
/// `gote_opponent_board`, `gote_opponent_ou_position_board`) turn the board
/// around and put it at bit `81 - s`.
#[derive(Clone, Copy, Debug, PartialEq, Eq, Structural)]
pub struct PartialState {
    /// Sente's pieces, seen from sente.
    pub sente_self_board: BitBoard,
    /// Gote's pieces, seen from sente.
    pub sente_opponent_board: BitBoard,
    /// Gote's pieces, seen from gote.
    pub gote_self_board: BitBoard,
    /// Sente's pieces, seen from gote.
    pub gote_opponent_board: BitBoard,
    /// Sente's promoted pieces.
    pub sente_nari_board: BitBoard,
    /// Gote's promoted pieces.
    pub gote_nari_board: BitBoard,
    /// Sente's pawns (promoted or not).
    pub sente_fu_board: BitBoard,
    /// Gote's pawns.
    pub gote_fu_board: BitBoard,
    /// Sente's lances.
    pub sente_kyou_board: BitBoard,
    /// Gote's lances.
    pub gote_kyou_board: BitBoard,
    /// Sente's knights.
    pub sente_kei_board: BitBoard,
    /// Gote's knights.
    pub gote_kei_board: BitBoard,
    /// Sente's silvers.
    pub sente_gin_board: BitBoard,
    /// Gote's silvers.
    pub gote_gin_board: BitBoard,
    /// Sente's golds.
    pub sente_kin_board: BitBoard,
    /// Gote's golds.
    pub gote_kin_board: BitBoard,
    /// Sente's bishops.
    pub sente_kaku_board: BitBoard,
    /// Gote's bishops.
    pub gote_kaku_board: BitBoard,
    /// Sente's rooks.
    pub sente_hisha_board: BitBoard,
    /// Gote's rooks.
    pub gote_hisha_board: BitBoard,
    /// Gote's king, seen from sente.
    pub sente_opponent_ou_position_board: BitBoard,
    /// Sente's king, seen from gote.
    pub gote_opponent_ou_position_board: BitBoard,
}

/// The bits of field number `f` (in declaration order) of `p`.
pub open spec fn field_board(p: PartialState, f: int) -> u128 {
    if f == 0 { p.sente_self_board.merged_bitboard }
    else if f == 1 { p.sente_opponent_board.merged_bitboard }
    else if f == 2 { p.gote_self_board.merged_bitboard }
    else if f == 3 { p.gote_opponent_board.merged_bitboard }
    else if f == 4 { p.sente_nari_board.merged_bitboard }
    else if f == 5 { p.gote_nari_board.merged_bitboard }
    else if f == 6 { p.sente_fu_board.merged_bitboard }
    else if f == 7 { p.gote_fu_board.merged_bitboard }
    else if f == 8 { p.sente_kyou_board.merged_bitboard }
    else if f == 9 { p.gote_kyou_board.merged_bitboard }
    else if f == 10 { p.sente_kei_board.merged_bitboard }
    else if f == 11 { p.gote_kei_board.merged_bitboard }
    else if f == 12 { p.sente_gin_board.merged_bitboard }
    else if f == 13 { p.gote_gin_board.merged_bitboard }
    else if f == 14 { p.sente_kin_board.merged_bitboard }
    else if f == 15 { p.gote_kin_board.merged_bitboard }
    else if f == 16 { p.sente_kaku_board.merged_bitboard }
    else if f == 17 { p.gote_kaku_board.merged_bitboard }
    else if f == 18 { p.sente_hisha_board.merged_bitboard }
    else if f == 19 { p.gote_hisha_board.merged_bitboard }
    else if f == 20 { p.sente_opponent_ou_position_board.merged_bitboard }
    else { p.gote_opponent_ou_position_board.merged_bitboard }
}

/// Whether field `f` sees the board from gote's side.
pub open spec fn field_inverted(f: int) -> bool {
    f == 2 || f == 3 || f == 21
}

/// The bit that stands for square `s` in field `f`.
pub open spec fn bit_pos(f: int, s: int) -> int {
    if field_inverted(f) { 81 - s } else { s + 1 }
}

/// Whether a square holding `k` is marked in field `f`.
pub open spec fn field_pred(f: int, k: KomaKind) -> bool {
    let i = kind_index(k);
    if f == 0 { i < 14 }
    else if f == 1 { 14 <= i < 28 }
    else if f == 2 { 14 <= i < 28 }
    else if f == 3 { i < 14 }
    else if f == 4 { 8 <= i < 14 }
    else if f == 5 { 22 <= i < 28 }
    else if f == 6 { i == 0 || i == 8 }
    else if f == 7 { i == 14 || i == 22 }
    else if f == 8 { i == 1 || i == 9 }
    else if f == 9 { i == 15 || i == 23 }
    else if f == 10 { i == 2 || i == 10 }
    else if f == 11 { i == 16 || i == 24 }
    else if f == 12 { i == 3 || i == 11 }
    else if f == 13 { i == 17 || i == 25 }
    else if f == 14 { i == 4 }
    else if f == 15 { i == 18 }
    else if f == 16 { i == 5 || i == 12 }
    else if f == 17 { i == 19 || i == 26 }
    else if f == 18 { i == 6 || i == 13 }
    else if f == 19 { i == 20 || i == 27 }
    else if f == 20 { i == 21 }
    else { i == 7 }
}

/// The squares below `n` are marked exactly where the board holds a matching
/// piece, the others are clear, and no bit outside the board is set.
pub open spec fn part_upto(b: Banmen, p: PartialState, n: int) -> bool {
    &&& forall|f: int, s: int| 0 <= f < 22 && 0 <= s < 81 ==>
        (#[trigger] has_bit(field_board(p, f), bit_pos(f, s)) <==> (s < n && field_pred(f, square_kind(b, s))))
    &&& forall|f: int, i: int| 0 <= f < 22 && 0 <= i < 128 && (i == 0 || i > 81) ==>
        !#[trigger] has_bit(field_board(p, f), i)
}

/// Every bitboard of `p` marks exactly the squares of `b` that hold its pieces.
pub open spec fn part_consistent(b: Banmen, p: PartialState) -> bool {
    part_upto(b, p, 81)
}

/// Flipping bit `j` changes bit `j` and no other.
pub proof fn lemma_xor_bit(x: u128, j: u128, i: u128)
    requires
        j < 128,
        i < 128,
    ensures
        ((x ^ (1u128 << j)) >> i) & 1u128 == 1u128 <==> (((x >> i) & 1u128 == 1u128) != (i == j)),
{
    assert(j < 128 && i < 128 ==> (((x ^ (1u128 << j)) >> i) & 1u128 == 1u128 <==> (((x >> i) & 1u128 == 1u128) != (i == j)))) by (bit_vector);
}

/// `b` with bit `pos` flipped when `on` holds.
fn toggle_if(b: BitBoard, on: bool, pos: u32) -> (r: BitBoard)
    requires
        pos < 128,
    ensures
        r.merged_bitboard == (if on { b.merged_bitboard ^ (1u128 << (pos as u128)) } else { b.merged_bitboard }),
{
    if on {
        BitBoard { merged_bitboard: b.merged_bitboard ^ (1u128 << (pos as u128)) }
    } else {
        b
    }
}

/// Whether a square holding `k` is marked in field `f`.
pub(crate) fn field_pred_exec(f: usize, k: KomaKind) -> (r: bool)
    requires
        f < 22,
    ensures
        r == field_pred(f as int, k),
{
    let i = k.to_index();
    match f {
        0 => i < 14,
        1 => 14 <= i && i < 28,
        2 => 14 <= i && i < 28,
        3 => i < 14,
        4 => 8 <= i && i < 14,
        5 => 22 <= i && i < 28,
        6 => i == 0 || i == 8,
        7 => i == 14 || i == 22,
        8 => i == 1 || i == 9,
        9 => i == 15 || i == 23,
        10 => i == 2 || i == 10,
        11 => i == 16 || i == 24,
        12 => i == 3 || i == 11,
        13 => i == 17 || i == 25,
        14 => i == 4,
        15 => i == 18,
        16 => i == 5 || i == 12,
        17 => i == 19 || i == 26,
        18 => i == 6 || i == 13,
        19 => i == 20 || i == 27,
        20 => i == 21,
        _ => i == 7,
    }
}

impl PartialState {
    /// Every bitboard empty.
    pub fn empty() -> (r: PartialState)
        ensures
            forall|f: int| 0 <= f < 22 ==> field_board(r, f) == 0,
    {
        let e = BitBoard { merged_bitboard: 0 };
        PartialState {
            sente_self_board: e,
            sente_opponent_board: e,
            gote_self_board: e,
            gote_opponent_board: e,
            sente_nari_board: e,
            gote_nari_board: e,
            sente_fu_board: e,
            gote_fu_board: e,
            sente_kyou_board: e,
            gote_kyou_board: e,
            sente_kei_board: e,
            gote_kei_board: e,
            sente_gin_board: e,
            gote_gin_board: e,
            sente_kin_board: e,
            gote_kin_board: e,
            sente_kaku_board: e,
            gote_kaku_board: e,
            sente_hisha_board: e,
            gote_hisha_board: e,
            sente_opponent_ou_position_board: e,
            gote_opponent_ou_position_board: e,
        }
    }

    /// Marks square `s` holding `k` in every field that takes it.
    fn add_square(self, k: KomaKind, s: u32) -> (r: PartialState)
        requires
            s < 81,
        ensures
            forall|f: int| 0 <= f < 22 ==> #[trigger] field_board(r, f) == (if field_pred(f, k) {
                field_board(self, f) ^ (1u128 << (bit_pos(f, s as int) as u128))
            } else {
                field_board(self, f)
            }),
    {
        let n = s + 1;
        let v = 81 - s;
        let r = PartialState {
            sente_self_board: toggle_if(self.sente_self_board, field_pred_exec(0, k), n),
            sente_opponent_board: toggle_if(self.sente_opponent_board, field_pred_exec(1, k), n),
            gote_self_board: toggle_if(self.gote_self_board, field_pred_exec(2, k), v),
            gote_opponent_board: toggle_if(self.gote_opponent_board, field_pred_exec(3, k), v),
            sente_nari_board: toggle_if(self.sente_nari_board, field_pred_exec(4, k), n),
            gote_nari_board: toggle_if(self.gote_nari_board, field_pred_exec(5, k), n),
            sente_fu_board: toggle_if(self.sente_fu_board, field_pred_exec(6, k), n),
            gote_fu_board: toggle_if(self.gote_fu_board, field_pred_exec(7, k), n),
            sente_kyou_board: toggle_if(self.sente_kyou_board, field_pred_exec(8, k), n),
            gote_kyou_board: toggle_if(self.gote_kyou_board, field_pred_exec(9, k), n),
            sente_kei_board: toggle_if(self.sente_kei_board, field_pred_exec(10, k), n),
            gote_kei_board: toggle_if(self.gote_kei_board, field_pred_exec(11, k), n),
            sente_gin_board: toggle_if(self.sente_gin_board, field_pred_exec(12, k), n),
            gote_gin_board: toggle_if(self.gote_gin_board, field_pred_exec(13, k), n),
            sente_kin_board: toggle_if(self.sente_kin_board, field_pred_exec(14, k), n),
            gote_kin_board: toggle_if(self.gote_kin_board, field_pred_exec(15, k), n),
            sente_kaku_board: toggle_if(self.sente_kaku_board, field_pred_exec(16, k), n),
            gote_kaku_board: toggle_if(self.gote_kaku_board, field_pred_exec(17, k), n),
            sente_hisha_board: toggle_if(self.sente_hisha_board, field_pred_exec(18, k), n),
            gote_hisha_board: toggle_if(self.gote_hisha_board, field_pred_exec(19, k), n),
            sente_opponent_ou_position_board: toggle_if(self.sente_opponent_ou_position_board, field_pred_exec(20, k), n),
            gote_opponent_ou_position_board: toggle_if(self.gote_opponent_ou_position_board, field_pred_exec(21, k), v),
        };
        proof {
            assert(field_board(r, 0) == (if field_pred(0, k) { field_board(self, 0) ^ (1u128 << ((n as u128))) } else { field_board(self, 0) }));
            assert(field_board(r, 1) == (if field_pred(1, k) { field_board(self, 1) ^ (1u128 << ((n as u128))) } else { field_board(self, 1) }));
            assert(field_board(r, 2) == (if field_pred(2, k) { field_board(self, 2) ^ (1u128 << ((v as u128))) } else { field_board(self, 2) }));
            assert(field_board(r, 3) == (if field_pred(3, k) { field_board(self, 3) ^ (1u128 << ((v as u128))) } else { field_board(self, 3) }));
            assert(field_board(r, 4) == (if field_pred(4, k) { field_board(self, 4) ^ (1u128 << ((n as u128))) } else { field_board(self, 4) }));
            assert(field_board(r, 5) == (if field_pred(5, k) { field_board(self, 5) ^ (1u128 << ((n as u128))) } else { field_board(self, 5) }));
            assert(field_board(r, 6) == (if field_pred(6, k) { field_board(self, 6) ^ (1u128 << ((n as u128))) } else { field_board(self, 6) }));
            assert(field_board(r, 7) == (if field_pred(7, k) { field_board(self, 7) ^ (1u128 << ((n as u128))) } else { field_board(self, 7) }));
            assert(field_board(r, 8) == (if field_pred(8, k) { field_board(self, 8) ^ (1u128 << ((n as u128))) } else { field_board(self, 8) }));
            assert(field_board(r, 9) == (if field_pred(9, k) { field_board(self, 9) ^ (1u128 << ((n as u128))) } else { field_board(self, 9) }));
            assert(field_board(r, 10) == (if field_pred(10, k) { field_board(self, 10) ^ (1u128 << ((n as u128))) } else { field_board(self, 10) }));
            assert(field_board(r, 11) == (if field_pred(11, k) { field_board(self, 11) ^ (1u128 << ((n as u128))) } else { field_board(self, 11) }));
            assert(field_board(r, 12) == (if field_pred(12, k) { field_board(self, 12) ^ (1u128 << ((n as u128))) } else { field_board(self, 12) }));
            assert(field_board(r, 13) == (if field_pred(13, k) { field_board(self, 13) ^ (1u128 << ((n as u128))) } else { field_board(self, 13) }));
            assert(field_board(r, 14) == (if field_pred(14, k) { field_board(self, 14) ^ (1u128 << ((n as u128))) } else { field_board(self, 14) }));
            assert(field_board(r, 15) == (if field_pred(15, k) { field_board(self, 15) ^ (1u128 << ((n as u128))) } else { field_board(self, 15) }));
            assert(field_board(r, 16) == (if field_pred(16, k) { field_board(self, 16) ^ (1u128 << ((n as u128))) } else { field_board(self, 16) }));
            assert(field_board(r, 17) == (if field_pred(17, k) { field_board(self, 17) ^ (1u128 << ((n as u128))) } else { field_board(self, 17) }));
            assert(field_board(r, 18) == (if field_pred(18, k) { field_board(self, 18) ^ (1u128 << ((n as u128))) } else { field_board(self, 18) }));
            assert(field_board(r, 19) == (if field_pred(19, k) { field_board(self, 19) ^ (1u128 << ((n as u128))) } else { field_board(self, 19) }));
            assert(field_board(r, 20) == (if field_pred(20, k) { field_board(self, 20) ^ (1u128 << ((n as u128))) } else { field_board(self, 20) }));
            assert(field_board(r, 21) == (if field_pred(21, k) { field_board(self, 21) ^ (1u128 << ((v as u128))) } else { field_board(self, 21) }));
            lemma_fields_toggled(self, r, k, s as int);
        }
        r
    }
}

/// Field-by-field form of a marked square, gathered over every field.
proof fn lemma_fields_toggled(p: PartialState, r: PartialState, k: KomaKind, s: int)
    requires
        0 <= s < 81,
        field_board(r, 0) == (if field_pred(0, k) { field_board(p, 0) ^ (1u128 << ((s + 1) as u128)) } else { field_board(p, 0) }),
        field_board(r, 1) == (if field_pred(1, k) { field_board(p, 1) ^ (1u128 << ((s + 1) as u128)) } else { field_board(p, 1) }),
        field_board(r, 2) == (if field_pred(2, k) { field_board(p, 2) ^ (1u128 << ((81 - s) as u128)) } else { field_board(p, 2) }),
        field_board(r, 3) == (if field_pred(3, k) { field_board(p, 3) ^ (1u128 << ((81 - s) as u128)) } else { field_board(p, 3) }),
        field_board(r, 4) == (if field_pred(4, k) { field_board(p, 4) ^ (1u128 << ((s + 1) as u128)) } else { field_board(p, 4) }),
        field_board(r, 5) == (if field_pred(5, k) { field_board(p, 5) ^ (1u128 << ((s + 1) as u128)) } else { field_board(p, 5) }),
        field_board(r, 6) == (if field_pred(6, k) { field_board(p, 6) ^ (1u128 << ((s + 1) as u128)) } else { field_board(p, 6) }),
        field_board(r, 7) == (if field_pred(7, k) { field_board(p, 7) ^ (1u128 << ((s + 1) as u128)) } else { field_board(p, 7) }),
        field_board(r, 8) == (if field_pred(8, k) { field_board(p, 8) ^ (1u128 << ((s + 1) as u128)) } else { field_board(p, 8) }),
        field_board(r, 9) == (if field_pred(9, k) { field_board(p, 9) ^ (1u128 << ((s + 1) as u128)) } else { field_board(p, 9) }),
        field_board(r, 10) == (if field_pred(10, k) { field_board(p, 10) ^ (1u128 << ((s + 1) as u128)) } else { field_board(p, 10) }),
        field_board(r, 11) == (if field_pred(11, k) { field_board(p, 11) ^ (1u128 << ((s + 1) as u128)) } else { field_board(p, 11) }),
        field_board(r, 12) == (if field_pred(12, k) { field_board(p, 12) ^ (1u128 << ((s + 1) as u128)) } else { field_board(p, 12) }),
        field_board(r, 13) == (if field_pred(13, k) { field_board(p, 13) ^ (1u128 << ((s + 1) as u128)) } else { field_board(p, 13) }),
        field_board(r, 14) == (if field_pred(14, k) { field_board(p, 14) ^ (1u128 << ((s + 1) as u128)) } else { field_board(p, 14) }),
        field_board(r, 15) == (if field_pred(15, k) { field_board(p, 15) ^ (1u128 << ((s + 1) as u128)) } else { field_board(p, 15) }),
        field_board(r, 16) == (if field_pred(16, k) { field_board(p, 16) ^ (1u128 << ((s + 1) as u128)) } else { field_board(p, 16) }),
        field_board(r, 17) == (if field_pred(17, k) { field_board(p, 17) ^ (1u128 << ((s + 1) as u128)) } else { field_board(p, 17) }),
        field_board(r, 18) == (if field_pred(18, k) { field_board(p, 18) ^ (1u128 << ((s + 1) as u128)) } else { field_board(p, 18) }),
        field_board(r, 19) == (if field_pred(19, k) { field_board(p, 19) ^ (1u128 << ((s + 1) as u128)) } else { field_board(p, 19) }),
        field_board(r, 20) == (if field_pred(20, k) { field_board(p, 20) ^ (1u128 << ((s + 1) as u128)) } else { field_board(p, 20) }),
        field_board(r, 21) == (if field_pred(21, k) { field_board(p, 21) ^ (1u128 << ((81 - s) as u128)) } else { field_board(p, 21) }),
    ensures
        forall|f: int| 0 <= f < 22 ==> #[trigger] field_board(r, f) == (if field_pred(f, k) {
            field_board(p, f) ^ (1u128 << (bit_pos(f, s) as u128))
        } else {
            field_board(p, f)
        }),
{
    assert forall|f: int| 0 <= f < 22 implies #[trigger] field_board(r, f) == (if field_pred(f, k) {
            field_board(p, f) ^ (1u128 << (bit_pos(f, s) as u128))
        } else {
            field_board(p, f)
        }) by {
        if f == 0 { }
        else if f == 1 { }
        else if f == 2 { }
        else if f == 3 { }
        else if f == 4 { }
        else if f == 5 { }
        else if f == 6 { }
        else if f == 7 { }
        else if f == 8 { }
        else if f == 9 { }
        else if f == 10 { }
        else if f == 11 { }
        else if f == 12 { }
        else if f == 13 { }
        else if f == 14 { }
        else if f == 15 { }
        else if f == 16 { }
        else if f == 17 { }
        else if f == 18 { }
        else if f == 19 { }
        else if f == 20 { }
        else if f == 21 { }
    }
}

/// Marking square `n` extends the consistency from the squares below `n` to those below `n + 1`.
proof fn lemma_add_square(b: Banmen, p: PartialState, r: PartialState, n: int)
    requires
        0 <= n < 81,
        part_upto(b, p, n),
        forall|f: int| 0 <= f < 22 ==> #[trigger] field_board(r, f) == (if field_pred(f, square_kind(b, n)) {
            field_board(p, f) ^ (1u128 << (bit_pos(f, n) as u128))
        } else {
            field_board(p, f)
        }),
    ensures
        part_upto(b, r, n + 1),
{
    assert forall|f: int, s: int| 0 <= f < 22 && 0 <= s < 81 implies
        (#[trigger] has_bit(field_board(r, f), bit_pos(f, s)) <==> (s < n + 1 && field_pred(f, square_kind(b, s)))) by {
        let j = bit_pos(f, n);
        let i = bit_pos(f, s);
        assert(has_bit(field_board(p, f), i) <==> (s < n && field_pred(f, square_kind(b, s))));
        if field_pred(f, square_kind(b, n)) {
            lemma_xor_bit(field_board(p, f), j as u128, i as u128);
        }
    }
    assert forall|f: int, i: int| 0 <= f < 22 && 0 <= i < 128 && (i == 0 || i > 81) implies
        !#[trigger] has_bit(field_board(r, f), i) by {
        assert(!has_bit(field_board(p, f), i));
        if field_pred(f, square_kind(b, n)) {
            lemma_xor_bit(field_board(p, f), bit_pos(f, n) as u128, i as u128);
        }
    }
}

/// Two states with the same piece on every square and the same bitboards are the same.
pub proof fn lemma_state_determined(a: State, b: State)
    requires
        forall|s: int| 0 <= s < 81 ==> #[trigger] square_kind(a.banmen_spec(), s) == square_kind(b.banmen_spec(), s),
        forall|f: int| 0 <= f < 22 ==> #[trigger] field_board(a.part_spec(), f) == field_board(b.part_spec(), f),
    ensures
        a == b,
{
    let pa = a.part_spec();
    let pb = b.part_spec();
    assert(field_board(pa, 0) == field_board(pb, 0));
    assert(field_board(pa, 1) == field_board(pb, 1));
    assert(field_board(pa, 2) == field_board(pb, 2));
    assert(field_board(pa, 3) == field_board(pb, 3));
    assert(field_board(pa, 4) == field_board(pb, 4));
    assert(field_board(pa, 5) == field_board(pb, 5));
    assert(field_board(pa, 6) == field_board(pb, 6));
    assert(field_board(pa, 7) == field_board(pb, 7));
    assert(field_board(pa, 8) == field_board(pb, 8));
    assert(field_board(pa, 9) == field_board(pb, 9));
    assert(field_board(pa, 10) == field_board(pb, 10));
    assert(field_board(pa, 11) == field_board(pb, 11));
    assert(field_board(pa, 12) == field_board(pb, 12));
    assert(field_board(pa, 13) == field_board(pb, 13));
    assert(field_board(pa, 14) == field_board(pb, 14));
    assert(field_board(pa, 15) == field_board(pb, 15));
    assert(field_board(pa, 16) == field_board(pb, 16));
    assert(field_board(pa, 17) == field_board(pb, 17));
    assert(field_board(pa, 18) == field_board(pb, 18));
    assert(field_board(pa, 19) == field_board(pb, 19));
    assert(field_board(pa, 20) == field_board(pb, 20));
    assert(field_board(pa, 21) == field_board(pb, 21));
    assert(pa == pb);
    let ka = a.banmen_spec().0;
    let kb = b.banmen_spec().0;
    assert forall|y: int| 0 <= y < 9 implies ka[y] == kb[y] by {
        assert forall|x: int| 0 <= x < 9 implies ka[y][x] == kb[y][x] by {
            let s = x * 9 + y;
            assert(s / 9 == x && s % 9 == y) by {
                vstd::arithmetic::div_mod::lemma_fundamental_div_mod_converse(s, 9, x, y);
            }
            assert(square_kind(a.banmen_spec(), s) == square_kind(b.banmen_spec(), s));
        }
        assert(ka[y] =~= kb[y]);
    }
    assert(ka =~= kb);
    assert(a.banmen_spec() == b.banmen_spec());
}

/// The board together with its bitboards.
#[derive(Clone, Copy, Debug)]
pub struct State {
    banmen: Banmen,
    part: PartialState,
}

impl State {
    /// The board.
    pub closed spec fn banmen_spec(self) -> Banmen {
        self.banmen
    }

    /// The bitboards.
    pub closed spec fn part_spec(self) -> PartialState {
        self.part
    }

    /// The bitboards match the board.
    pub open spec fn wf(self) -> bool {
        part_consistent(self.banmen_spec(), self.part_spec())
    }

    /// The state of `banmen`, with every bitboard built from it.
    pub fn new(banmen: Banmen) -> (r: State)
        ensures
            r.banmen_spec() == banmen,
            part_consistent(banmen, r.part_spec()),
            r.wf(),
    {
        let mut p = PartialState::empty();
        proof {
            assert forall|f: int, s: int| 0 <= f < 22 && 0 <= s < 81 implies
                (#[trigger] has_bit(field_board(p, f), bit_pos(f, s)) <==> (s < 0 && field_pred(f, square_kind(banmen, s)))) by {
                let i = bit_pos(f, s) as u128;
                assert(((0u128 >> i) & 1u128) == 0u128) by (bit_vector);
            }
            assert forall|f: int, i: int| 0 <= f < 22 && 0 <= i < 128 && (i == 0 || i > 81) implies
                !#[trigger] has_bit(field_board(p, f), i) by {
                let k = i as u128;
                assert(((0u128 >> k) & 1u128) == 0u128) by (bit_vector);
            }
        }
        let mut s: u32 = 0;
        while s < 81
            invariant
                s <= 81,
                part_upto(banmen, p, s as int),
            decreases 81 - s,
        {
            let x = (s / 9) as usize;
            let y = (s % 9) as usize;
            let kind = banmen.0[y][x];
            let q = p.add_square(kind, s);
            proof {
                lemma_add_square(banmen, p, q, s as int);
            }
            p = q;
            s = s + 1;
        }
        State { banmen, part: p }
    }

    /// Hands the board to `f` and returns what it returns.
    pub fn map_banmen<F, T>(&self, f: F) -> (r: T)
        where
            F: FnOnce(&Banmen) -> T,
        requires
            f.requires((&self.banmen_spec(),)),
        ensures
            f.ensures((&self.banmen_spec(),), r),
    {
        f(&self.banmen)
    }

    /// Hands the board and the bitboards to `f` and returns what it returns.
    pub fn map<F, T>(&self, f: F) -> (r: T)
        where
            F: FnOnce(&Banmen, &PartialState) -> T,
        requires
            f.requires((&self.banmen_spec(), &self.part_spec())),
        ensures
            f.ensures((&self.banmen_spec(), &self.part_spec()), r),
    {
        f(&self.banmen, &self.part)
    }

    /// The board.
    pub fn get_banmen(&self) -> (r: &Banmen)
        ensures
            *r == self.banmen_spec(),
    {
        &self.banmen
    }

    /// The bitboards.
    pub fn get_part(&self) -> (r: &PartialState)
        ensures
            *r == self.part_spec(),
    {
        &self.part
    }
}

impl PartialState {
    /// The state made of `banmen` and these bitboards; the bitboards are
    /// taken as they are, so the state is consistent only when they match the board.
    pub fn to_full_state(&self, banmen: Banmen) -> (r: State)
        ensures
            r.banmen_spec() == banmen,
            r.part_spec() == *self,
            part_consistent(banmen, *self) ==> r.wf(),
    {
        State { banmen, part: *self }
    }
}

} // verus!
