//! Whether a move may be played, and playing it once checked.
use vstd::prelude::*;
use crate::bitboard::{BitBoard, has_bit};
use crate::shogi::{KomaKind, Teban, MochigomaKind, MochigomaCollections, kind_index, mochigoma_index};
use crate::rule::{Rule, AppliedMove, SquareToPoint, lemma_point_x};
use crate::rule::masks::{
    SENTE_NARI_MASK, GOTE_NARI_MASK, DENY_MOVE_SENTE_FU_AND_KYOU_MASK, DENY_MOVE_SENTE_KEI_MASK,
    DENY_MOVE_GOTE_FU_AND_KYOU_MASK, DENY_MOVE_GOTE_KEI_MASK,
};
use crate::rule::state::{State, PartialState, square_kind};
use crate::rule::movegen::{candidate_board, kaku_rt_bits, kaku_rb_bits, hisha_top_bits, hisha_right_bits};
use crate::rule::apply::{move_on_board, capture_fits, kind_after_move, obtained_of_move, hands_after_move, hand_of,
    lemma_and_bit};
use crate::error::{ShogiError, str_to_string};

verus! {

/// Bit `s` of a square mask is set.
pub open spec fn on_mask(mask: u128, s: int) -> bool {
    (mask & (1u128 << (s as u128))) != 0
}

/// The promotion mask of a kind that may promote (0 for the others).
pub open spec fn valid_nari_mask(i: int) -> u128 {
    if i == 0 || i == 1 || i == 2 || i == 3 || i == 5 || i == 6 {
        SENTE_NARI_MASK
    } else if i == 14 || i == 15 || i == 16 || i == 17 || i == 19 || i == 20 {
        GOTE_NARI_MASK
    } else {
        0
    }
}

/// The squares a kind may not reach without promoting.
pub open spec fn valid_deny_mask(i: int) -> u128 {
    if i == 0 || i == 1 { DENY_MOVE_SENTE_FU_AND_KYOU_MASK }
    else if i == 2 { DENY_MOVE_SENTE_KEI_MASK }
    else if i == 14 || i == 15 { DENY_MOVE_GOTE_FU_AND_KYOU_MASK }
    else if i == 16 { DENY_MOVE_GOTE_KEI_MASK }
    else { 0 }
}

/// The kinds checked by their one-step pattern (promoted bishops and rooks included).
pub open spec fn checked_by_steps(i: int) -> bool {
    i == 0 || i == 2 || i == 3 || i == 4 || i == 7 || (8 <= i <= 13)
        || i == 14 || i == 16 || i == 17 || i == 18 || i == 21 || (22 <= i <= 27)
}

/// Whether the piece of kind index `i` on `from` reaches `to` (`to` as seen
/// by the piece's side: turned around for gote), by one step or along its lines.
pub open spec fn reaches(p: PartialState, t: Teban, kind: KomaKind, from: int, to: int) -> bool {
    let i = kind_index(kind);
    let ss = p.sente_self_board.merged_bitboard;
    let so = p.sente_opponent_board.merged_bitboard;
    let gs = p.gote_self_board.merged_bitboard;
    let go = p.gote_opponent_board.merged_bitboard;
    let own = if i < 14 { ss } else { gs };
    ||| checked_by_steps(i) && has_bit(candidate_board(t, own, from as u32, kind), to + 1)
    ||| i == 1 && has_bit(hisha_top_bits(go, gs, go, 80 - from), 81 - to)
    ||| i == 15 && has_bit(hisha_top_bits(so, ss, so, from), 81 - to)
    ||| (i == 5 || i == 12) && (has_bit(kaku_rb_bits(ss, so, ss, from) | kaku_rt_bits(ss, so, ss, from), to + 1)
        || has_bit(kaku_rb_bits(go, gs, go, 80 - from) | kaku_rt_bits(go, gs, go, 80 - from), 81 - to))
    ||| (i == 19 || i == 26) && (has_bit(kaku_rb_bits(gs, go, gs, 80 - from) | kaku_rt_bits(gs, go, gs, 80 - from), to + 1)
        || has_bit(kaku_rb_bits(so, ss, so, from) | kaku_rt_bits(so, ss, so, from), 81 - to))
    ||| (i == 6 || i == 13) && (has_bit(hisha_top_bits(go, gs, go, 80 - from) | hisha_right_bits(go, gs, go, 80 - from), 81 - to)
        || has_bit(hisha_top_bits(ss, so, ss, from) | hisha_right_bits(ss, so, ss, from), to + 1))
    ||| (i == 20 || i == 27) && (has_bit(hisha_top_bits(so, ss, so, from) | hisha_right_bits(so, ss, so, from), 81 - to)
        || has_bit(hisha_top_bits(gs, go, gs, 80 - from) | hisha_right_bits(gs, go, gs, 80 - from), to + 1))
}

/// The squares a dropped piece of kind `k` may not reach, one bit up.
pub open spec fn put_deny_mask(t: Teban, k: MochigomaKind) -> u128 {
    if t == Teban::Sente {
        if k == MochigomaKind::Fu || k == MochigomaKind::Kyou {
            DENY_MOVE_SENTE_FU_AND_KYOU_MASK << 1u128
        } else if k == MochigomaKind::Kei {
            DENY_MOVE_SENTE_KEI_MASK << 1u128
        } else {
            0
        }
    } else {
        if k == MochigomaKind::Fu || k == MochigomaKind::Kyou {
            DENY_MOVE_GOTE_FU_AND_KYOU_MASK << 1u128
        } else if k == MochigomaKind::Kei {
            DENY_MOVE_GOTE_KEI_MASK << 1u128
        } else {
            0
        }
    }
}

/// Whether side `t` already has an unpromoted pawn on the column of square `to`.
pub open spec fn nifu_spec(p: PartialState, t: Teban, to: int) -> bool {
    let fu = if t == Teban::Sente {
        (p.sente_fu_board.merged_bitboard & !p.sente_nari_board.merged_bitboard) >> 1u128
    } else {
        (p.gote_fu_board.merged_bitboard & !p.gote_nari_board.merged_bitboard) >> 1u128
    };
    (fu & (0b111111111u128 << ((to / 9 * 9) as u128))) != 0
}

/// Whether side `t` may play `m`: a move of one of its pieces that reaches
/// the destination, promoting only where and what may promote, and not
/// left unpromoted where it could not move on; or a drop of a piece it
/// holds on an empty square where the piece could still move, a pawn not on
/// a column that already holds an unpromoted pawn of the side.
pub open spec fn valid_move_spec(state: State, t: Teban, mc: MochigomaCollections, m: AppliedMove) -> bool {
    let p = state.part_spec();
    match m {
        AppliedMove::To(mt) => {
            let from = mt.src_spec() as int;
            let to = mt.dst_spec() as int;
            let kind = square_kind(state.banmen_spec(), from);
            let i = kind_index(kind);
            &&& from <= 80 && to <= 80
            &&& !(kind == KomaKind::Blank || (t == Teban::Sente && i >= 14) || (t == Teban::Gote && i < 14))
            &&& if mt.nari_spec() {
                valid_nari_mask(i) != 0 && (on_mask(valid_nari_mask(i), to) || on_mask(valid_nari_mask(i), from))
            } else {
                !on_mask(valid_deny_mask(i), to)
            }
            &&& reaches(p, t, kind, from, if i < 14 { to } else { 80 - to })
        },
        AppliedMove::Put(mp) => {
            let to = mp.dst_spec() as int;
            let k = mp.kind_spec();
            &&& to <= 80
            &&& !has_bit(p.sente_self_board.merged_bitboard | p.sente_opponent_board.merged_bitboard, to + 1)
            &&& mc is Pair
            &&& hand_of(mc, t)[mochigoma_index(k)] != 0
            &&& (put_deny_mask(t, k) & (1u128 << ((to + 1) as u128))) == 0
            &&& !(k == MochigomaKind::Fu && nifu_spec(p, t, to))
        },
    }
}

/// Testing a bit of a board through the mask `1 << j`.
fn bit_set(x: u128, j: u32) -> (r: bool)
    requires
        j < 128,
    ensures
        r == has_bit(x, j as int),
{
    proof {
        lemma_and_bit(x, j as u128);
    }
    (x & (1u128 << (j as u128))) != 0
}

impl Rule {
    /// Whether side `t` may play `m` in `state` with the pieces in hand `mc`.
    pub fn is_valid_move(state: &State, t: Teban, mc: &MochigomaCollections, m: AppliedMove) -> (r: bool)
        ensures
            r == valid_move_spec(*state, t, *mc, m),
    {
        let part = state.get_part();
        let ss = part.sente_self_board;
        let so = part.sente_opponent_board;
        let gs = part.gote_self_board;
        let go = part.gote_opponent_board;
        match m {
            AppliedMove::To(mt) => {
                let from = mt.src();
                let to = mt.dst();
                if from > 80 || to > 80 {
                    return false;
                }
                proof {
                    lemma_point_x(from);
                    crate::rule::apply::lemma_square_split_pub(from as int);
                }
                let (x, y) = from.square_to_point();
                let kind = state.get_banmen().0[y as usize][x as usize];
                let i = kind.to_index();
                if kind == KomaKind::Blank || (t == Teban::Sente && i >= 14) || (t == Teban::Gote && i < 14) {
                    return false;
                }
                if mt.is_nari() {
                    let nari_mask: u128 = if i == 0 || i == 1 || i == 2 || i == 3 || i == 5 || i == 6 {
                        SENTE_NARI_MASK
                    } else if i == 14 || i == 15 || i == 16 || i == 17 || i == 19 || i == 20 {
                        GOTE_NARI_MASK
                    } else {
                        return false;
                    };
                    if (nari_mask & (1u128 << (to as u128))) == 0 && (nari_mask & (1u128 << (from as u128))) == 0 {
                        return false;
                    }
                } else {
                    let deny_move_mask: u128 = if i == 0 || i == 1 {
                        DENY_MOVE_SENTE_FU_AND_KYOU_MASK
                    } else if i == 2 {
                        DENY_MOVE_SENTE_KEI_MASK
                    } else if i == 14 || i == 15 {
                        DENY_MOVE_GOTE_FU_AND_KYOU_MASK
                    } else if i == 16 {
                        DENY_MOVE_GOTE_KEI_MASK
                    } else {
                        0
                    };
                    if (deny_move_mask & (1u128 << (to as u128))) != 0 {
                        return false;
                    }
                }
                let (to, self_occupied) = if i < 14 { (to, ss) } else { (80 - to, gs) };
                if i == 0 || i == 2 || i == 3 || i == 4 || i == 7 || (8 <= i && i <= 13) || i == 14 || i == 16 || i == 17
                    || i == 18 || i == 21 || (22 <= i && i <= 27) {
                    let board = Rule::gen_candidate_bits(t, self_occupied, from, kind);
                    if bit_set(board.merged_bitboard, to + 1) {
                        return true;
                    }
                }
                if i == 1 {
                    let board = Rule::gen_candidate_bits_by_hisha_or_kyou_to_top(go, gs, 80 - from);
                    if bit_set(board.merged_bitboard, 81 - to) {
                        return true;
                    }
                } else if i == 15 {
                    let board = Rule::gen_candidate_bits_by_hisha_or_kyou_to_top(so, ss, from);
                    if bit_set(board.merged_bitboard, 81 - to) {
                        return true;
                    }
                } else if i == 5 || i == 12 {
                    let board = Rule::gen_candidate_bits_by_kaku_to_right_bottom(ss, so, from).bitor(
                        Rule::gen_candidate_bits_by_kaku_to_right_top(ss, so, from));
                    if bit_set(board.merged_bitboard, to + 1) {
                        return true;
                    }
                    let board = Rule::gen_candidate_bits_by_kaku_to_right_bottom(go, gs, 80 - from).bitor(
                        Rule::gen_candidate_bits_by_kaku_to_right_top(go, gs, 80 - from));
                    if bit_set(board.merged_bitboard, 81 - to) {
                        return true;
                    }
                } else if i == 19 || i == 26 {
                    let board = Rule::gen_candidate_bits_by_kaku_to_right_bottom(gs, go, 80 - from).bitor(
                        Rule::gen_candidate_bits_by_kaku_to_right_top(gs, go, 80 - from));
                    if bit_set(board.merged_bitboard, to + 1) {
                        return true;
                    }
                    let board = Rule::gen_candidate_bits_by_kaku_to_right_bottom(so, ss, from).bitor(
                        Rule::gen_candidate_bits_by_kaku_to_right_top(so, ss, from));
                    if bit_set(board.merged_bitboard, 81 - to) {
                        return true;
                    }
                } else if i == 6 || i == 13 {
                    let board = Rule::gen_candidate_bits_by_hisha_or_kyou_to_top(go, gs, 80 - from).bitor(
                        Rule::gen_candidate_bits_by_hisha_to_right(go, gs, 80 - from));
                    if bit_set(board.merged_bitboard, 81 - to) {
                        return true;
                    }
                    let board = Rule::gen_candidate_bits_by_hisha_or_kyou_to_top(ss, so, from).bitor(
                        Rule::gen_candidate_bits_by_hisha_to_right(ss, so, from));
                    if bit_set(board.merged_bitboard, to + 1) {
                        return true;
                    }
                } else if i == 20 || i == 27 {
                    let board = Rule::gen_candidate_bits_by_hisha_or_kyou_to_top(so, ss, from).bitor(
                        Rule::gen_candidate_bits_by_hisha_to_right(so, ss, from));
                    if bit_set(board.merged_bitboard, 81 - to) {
                        return true;
                    }
                    let board = Rule::gen_candidate_bits_by_hisha_or_kyou_to_top(gs, go, 80 - from).bitor(
                        Rule::gen_candidate_bits_by_hisha_to_right(gs, go, 80 - from));
                    if bit_set(board.merged_bitboard, to + 1) {
                        return true;
                    }
                }
                false
            },
            AppliedMove::Put(mp) => {
                let to = mp.dst();
                if to > 80 {
                    return false;
                }
                let occupied = ss.bitor(so).merged_bitboard;
                if bit_set(occupied, to + 1) {
                    return false;
                }
                let hand = match t {
                    Teban::Sente => match mc {
                        MochigomaCollections::Empty => {
                            return false;
                        },
                        MochigomaCollections::Pair(ms, _) => ms,
                    },
                    Teban::Gote => match mc {
                        MochigomaCollections::Empty => {
                            return false;
                        },
                        MochigomaCollections::Pair(_, mg) => mg,
                    },
                };
                let kind = mp.kind();
                if hand.get(kind) == 0 {
                    return false;
                }
                let to_mask: u128 = 1u128 << ((to + 1) as u128);
                let deny: u128 = match t {
                    Teban::Sente => match kind {
                        MochigomaKind::Fu | MochigomaKind::Kyou => DENY_MOVE_SENTE_FU_AND_KYOU_MASK << 1u128,
                        MochigomaKind::Kei => DENY_MOVE_SENTE_KEI_MASK << 1u128,
                        _ => 0,
                    },
                    Teban::Gote => match kind {
                        MochigomaKind::Fu | MochigomaKind::Kyou => DENY_MOVE_GOTE_FU_AND_KYOU_MASK << 1u128,
                        MochigomaKind::Kei => DENY_MOVE_GOTE_KEI_MASK << 1u128,
                        _ => 0,
                    },
                };
                if (deny & to_mask) != 0 {
                    return false;
                }
                if kind == MochigomaKind::Fu {
                    let fu: u128 = match t {
                        Teban::Sente => (part.sente_fu_board.merged_bitboard & !part.sente_nari_board.merged_bitboard) >> 1u128,
                        Teban::Gote => (part.gote_fu_board.merged_bitboard & !part.gote_nari_board.merged_bitboard) >> 1u128,
                    };
                    proof {
                        lemma_point_x(to);
                    }
                    let x = to * 114 / 1024;
                    if (fu & (0b111111111u128 << ((x * 9) as u128))) != 0 {
                        return false;
                    }
                }
                true
            },
        }
    }
}

impl Rule {
    /// Plays `m` for side `t` once it is found valid; refuses an invalid move.
    pub fn apply_valid_move(state: &State, t: Teban, mc: &MochigomaCollections, m: AppliedMove)
        -> (r: Result<(State, MochigomaCollections, Option<crate::shogi::MochigomaKind>), ShogiError>)
        requires
            valid_move_spec(*state, t, *mc, m) ==> capture_fits(state.banmen_spec(), t, *mc, m),
        ensures
            r is Err <==> !valid_move_spec(*state, t, *mc, m),
            r matches Err(e) ==> e matches ShogiError::InvalidState(_),
            r matches Ok(res) ==> {
                &&& forall|s: int| 0 <= s < 81 ==> #[trigger] square_kind(res.0.banmen_spec(), s)
                    == kind_after_move(state.banmen_spec(), t, m, s)
                &&& forall|f: int| 0 <= f < 22 ==> #[trigger] crate::rule::state::field_board(res.0.part_spec(), f)
                    == crate::rule::apply::field_after_move(state.part_spec(), state.banmen_spec(), t, m, f)
                &&& res.2 == obtained_of_move(state.banmen_spec(), m)
                &&& hands_after_move(state.banmen_spec(), t, *mc, m, res.1)
            },
    {
        if !Rule::is_valid_move(state, t, mc, m) {
            Err(ShogiError::InvalidState(str_to_string("This is not legal move.")))
        } else {
            Ok(Rule::apply_move_none_check(state, t, mc, m))
        }
    }
}

/// The board and bitboards after a move are fixed by the move: the state that
/// `apply_valid_move` returns for a valid move is the one `apply_move_none_check`
/// returns (both meet these relations).
pub proof fn law_valid_apply_matches_unchecked(state: State, t: Teban, m: AppliedMove, s1: State, s2: State)
    requires
        forall|s: int| 0 <= s < 81 ==> #[trigger] square_kind(s1.banmen_spec(), s) == kind_after_move(state.banmen_spec(), t, m, s),
        forall|f: int| 0 <= f < 22 ==> #[trigger] crate::rule::state::field_board(s1.part_spec(), f)
            == crate::rule::apply::field_after_move(state.part_spec(), state.banmen_spec(), t, m, f),
        forall|s: int| 0 <= s < 81 ==> #[trigger] square_kind(s2.banmen_spec(), s) == kind_after_move(state.banmen_spec(), t, m, s),
        forall|f: int| 0 <= f < 22 ==> #[trigger] crate::rule::state::field_board(s2.part_spec(), f)
            == crate::rule::apply::field_after_move(state.part_spec(), state.banmen_spec(), t, m, f),
    ensures
        s1 == s2,
{
    assert forall|s: int| 0 <= s < 81 implies #[trigger] square_kind(s1.banmen_spec(), s) == square_kind(s2.banmen_spec(), s) by {
        assert(square_kind(s1.banmen_spec(), s) == kind_after_move(state.banmen_spec(), t, m, s));
    }
    assert forall|f: int| 0 <= f < 22 implies #[trigger] crate::rule::state::field_board(s1.part_spec(), f)
        == crate::rule::state::field_board(s2.part_spec(), f) by {
        assert(crate::rule::state::field_board(s1.part_spec(), f)
            == crate::rule::apply::field_after_move(state.part_spec(), state.banmen_spec(), t, m, f));
    }
    crate::rule::state::lemma_state_determined(s1, s2);
}

/// A drop the validity check accepts puts the piece on a square of the board
/// where it could still move: no sente pawn or lance on the top row, no sente
/// knight on the two top rows, and the same at the bottom for gote.
pub proof fn law_valid_drop_leaves_a_move(state: State, t: Teban, mc: MochigomaCollections, mp: crate::rule::AppliedMovePut)
    requires
        valid_move_spec(state, t, mc, AppliedMove::Put(mp)),
    ensures
        mp.dst_spec() < 81,
        crate::rule::movegen::drop_leaves_a_move(t, mp.kind_spec(), mp.dst_spec() as int),
{
    let s = mp.dst_spec() as int;
    let x = s / 9;
    let y = s % 9;
    assert(x * 9 + y == s) by {
        vstd::arithmetic::div_mod::lemma_fundamental_div_mod(s, 9);
    }
    crate::rule::masks::lemma_deny_rows(x as u128, y as u128);
    assert((x as u128) * 9 + (y as u128) + 1 == (s + 1) as u128);
}

} // verus!
