//! Checks: whether a piece takes the opposing king next.
use vstd::prelude::*;
use crate::bitboard::{BitBoard, has_bit};
use crate::shogi::{KomaKind, Teban, Banmen, kind_index, opposite_of, nari_of, kind_of_put};
use crate::rule::{AppliedMove, SquareToPoint, lemma_point_x, LegalMove, LegalMoveTo};
use crate::rule::movegen::kind_masks;
use crate::shogi::{ObtainKind, is_nari_kind, KomaSrcPosition, KomaDstToPosition, KomaDstPutPosition};
use crate::rule::masks::{SENTE_NARI_MASK, GOTE_NARI_MASK, DENY_MOVE_SENTE_FU_AND_KYOU_MASK, DENY_MOVE_SENTE_KEI_MASK, DENY_MOVE_GOTE_FU_AND_KYOU_MASK, DENY_MOVE_GOTE_KEI_MASK};
use crate::rule::state::{PartialState, State, square_kind};
use crate::rule::{Rule, Square};
use crate::rule::movegen::{candidate_board, kaku_rt_bits, kaku_rb_bits, hisha_top_bits, hisha_right_bits, within_board,
    lowest_bit};

verus! {

/// An optional square as the functions return it.
pub open spec fn opt_square(o: Option<int>) -> Option<Square> {
    match o {
        Some(s) => Some(s as Square),
        None => None,
    }
}

/// Where a stepping piece on `from` takes the opposing king `ou`: the king's
/// position (its lowest bit, minus one) when the king stands on one of its steps.
pub open spec fn win_once_spec(teban: Teban, so: u128, ou: u128, from: u32, kind: KomaKind) -> Option<int> {
    if (ou & candidate_board(teban, so, from, kind)) != 0 { Some(lowest_bit(ou) - 1) } else { None }
}

/// Bit `j` of a single-bit mask over `x`: set exactly when `x` has bit `j`,
/// and then it is the lowest bit of the masked word.
proof fn lemma_single_bit(x: u128, j: u128, i: u128)
    by (bit_vector)
    requires
        j < 128,
        i < 128,
    ensures
        (((1u128 << j) & x) != 0) == ((x >> j) & 1u128 == 1u128),
        i != j ==> (((1u128 << j) & x) >> i) & 1u128 == 0,
        (((1u128 << j) & x) >> j) & 1u128 == ((x >> j) & 1u128),
{
}

/// Whether `x` has bit `j`, tested the way the checks test it: masking and
/// taking the lowest bit of what is left.
fn take_bit(x: u128, j: u32) -> (r: bool)
    requires
        1 <= j < 128,
    ensures
        r == has_bit(x, j as int),
{
    let mut b = BitBoard { merged_bitboard: (1u128 << (j as u128)) & x };
    proof {
        lemma_single_bit(x, j as u128, 0);
    }
    if b.merged_bitboard != 0 {
        let ghost before = b.merged_bitboard;
        let p = Rule::pop_lsb(&mut b);
        proof {
            lemma_single_bit(x, j as u128, (p + 1) as u128);
        }
        true
    } else {
        false
    }
}

/// Where sente's bishop on `from` takes the opposing king: the king's square when one
/// of its lines reaches it, or, for a promoted one, its single steps.
pub open spec fn win_sente_kaku_spec(ou: u128, so: u128, oo: u128, fso: u128, foo: u128, from: u32, kind: KomaKind) -> Option<int> {
    if ou == 0 {
        None
    } else {
        let o = lowest_bit(ou) - 1;
        if has_bit(kaku_rb_bits(so, oo, so, from as int) | kaku_rt_bits(so, oo, so, from as int), o + 1) {
            Some(o)
        } else if has_bit(kaku_rb_bits(foo, fso, foo, 80 - from) | kaku_rt_bits(foo, fso, foo, 80 - from), 81 - o) {
            Some(o)
        } else if kind == KomaKind::SKakuN {
            win_once_spec(Teban::Sente, so, ou, from, kind)
        } else {
            None
        }
    }
}

/// Where gote's bishop on `from` takes the opposing king: the king's square when one
/// of its lines reaches it, or, for a promoted one, its single steps.
pub open spec fn win_gote_kaku_spec(ou: u128, so: u128, oo: u128, fso: u128, foo: u128, from: u32, kind: KomaKind) -> Option<int> {
    if ou == 0 {
        None
    } else {
        let o = lowest_bit(ou) - 1;
        if has_bit(kaku_rb_bits(foo, fso, foo, from as int) | kaku_rt_bits(foo, fso, foo, from as int), 81 - o) {
            Some(80 - o)
        } else if has_bit(kaku_rb_bits(so, oo, so, 80 - from) | kaku_rt_bits(so, oo, so, 80 - from), o + 1) {
            Some(80 - o)
        } else if kind == KomaKind::GKakuN {
            win_once_spec(Teban::Gote, so, ou, from, kind)
        } else {
            None
        }
    }
}

/// Where sente's rook on `from` takes the opposing king: the king's square when one
/// of its lines reaches it, or, for a promoted one, its single steps.
pub open spec fn win_sente_hisha_spec(ou: u128, so: u128, oo: u128, fso: u128, foo: u128, from: u32, kind: KomaKind) -> Option<int> {
    if ou == 0 {
        None
    } else {
        let o = lowest_bit(ou) - 1;
        if has_bit(hisha_top_bits(foo, fso, foo, 80 - from) | hisha_right_bits(foo, fso, foo, 80 - from), 81 - o) {
            Some(o)
        } else if has_bit(hisha_top_bits(so, oo, so, from as int) | hisha_right_bits(so, oo, so, from as int), o + 1) {
            Some(o)
        } else if kind == KomaKind::SHishaN {
            win_once_spec(Teban::Sente, so, ou, from, kind)
        } else {
            None
        }
    }
}

/// Where gote's rook on `from` takes the opposing king: the king's square when one
/// of its lines reaches it, or, for a promoted one, its single steps.
pub open spec fn win_gote_hisha_spec(ou: u128, so: u128, oo: u128, fso: u128, foo: u128, from: u32, kind: KomaKind) -> Option<int> {
    if ou == 0 {
        None
    } else {
        let o = lowest_bit(ou) - 1;
        if has_bit(hisha_top_bits(foo, fso, foo, from as int) | hisha_right_bits(foo, fso, foo, from as int), 81 - o) {
            Some(80 - o)
        } else if has_bit(hisha_top_bits(so, oo, so, 80 - from) | hisha_right_bits(so, oo, so, 80 - from), o + 1) {
            Some(80 - o)
        } else if kind == KomaKind::GHishaN {
            win_once_spec(Teban::Gote, so, ou, from, kind)
        } else {
            None
        }
    }
}

/// Where sente's lance on `from` takes the opposing king, up its column.
pub open spec fn win_sente_kyou_spec(ou: u128, fso: u128, foo: u128, from: u32) -> Option<int> {
    if ou == 0 {
        None
    } else {
        let o = lowest_bit(ou) - 1;
        if has_bit(hisha_top_bits(fso, foo, fso, 80 - from), 81 - o) { Some(o) } else { None }
    }
}

/// Where gote's lance on `from` takes the opposing king, down its column.
pub open spec fn win_gote_kyou_spec(ou: u128, fso: u128, foo: u128, from: u32) -> Option<int> {
    if ou == 0 {
        None
    } else {
        let o = lowest_bit(ou) - 1;
        if has_bit(hisha_top_bits(fso, foo, fso, from as int), 81 - o) { Some(80 - o) } else { None }
    }
}

impl Rule {
    /// Where a stepping piece on `from` takes the opposing king, if it does.
    pub fn win_only_move_once_with_point_and_kind_and_bitboard(
        teban: Teban,
        self_occupied: BitBoard,
        opponent_ou_bitboard: BitBoard,
        from: u32,
        kind: KomaKind,
    ) -> (r: Option<Square>)
        requires
            from < 81,
        ensures
            r == opt_square(win_once_spec(teban, self_occupied.merged_bitboard, opponent_ou_bitboard.merged_bitboard, from, kind)),
    {
        let board = Rule::gen_candidate_bits(teban, self_occupied, from, kind);
        let ou = opponent_ou_bitboard.merged_bitboard;
        let bb = board.merged_bitboard;
        if (ou & bb) != 0 {
            proof {
                assert((ou & bb) != 0 ==> ou != 0) by (bit_vector);
            }
            let mut b = BitBoard { merged_bitboard: ou };
            let p = Rule::pop_lsb(&mut b);
            Some(p)
        } else {
            None
        }
    }

    /// Where sente's bishop on `from` takes the opposing king (marked in `opponent_ou_bitboard`), if it does.
    pub fn win_only_move_sente_kaku_with_point_and_kind_and_bitboard(
        opponent_ou_bitboard: BitBoard,
        self_occupied: BitBoard,
        opponent_occupied: BitBoard,
        flip_self_occupied: BitBoard,
        flip_opponent_occupied: BitBoard,
        from: u32,
        kind: KomaKind,
    ) -> (r: Option<Square>)
        requires
            from < 81,
            within_board(opponent_ou_bitboard.merged_bitboard),
        ensures
            r == opt_square(win_sente_kaku_spec(opponent_ou_bitboard.merged_bitboard, self_occupied.merged_bitboard,
                opponent_occupied.merged_bitboard, flip_self_occupied.merged_bitboard, flip_opponent_occupied.merged_bitboard,
                from, kind)),
    {
        let mut ou = opponent_ou_bitboard;
        let o = Rule::pop_lsb(&mut ou);
        if o == -1 {
            proof {
                if opponent_ou_bitboard.merged_bitboard != 0 {
                    crate::bitboard::lemma_lowest_exists(opponent_ou_bitboard.merged_bitboard);
                    assert(has_bit(opponent_ou_bitboard.merged_bitboard, lowest_bit(opponent_ou_bitboard.merged_bitboard)));
                }
            }
            return None;
        }
        proof {
            crate::bitboard::lemma_lowest_exists(opponent_ou_bitboard.merged_bitboard);
            assert(has_bit(opponent_ou_bitboard.merged_bitboard, o + 1));
        }
        let board = Rule::gen_candidate_bits_by_kaku_to_right_bottom(self_occupied, opponent_occupied, from).bitor(Rule::gen_candidate_bits_by_kaku_to_right_top(self_occupied, opponent_occupied, from));
        if take_bit(board.merged_bitboard, (o + 1) as u32) {
            return Some(o);
        }
        let board = Rule::gen_candidate_bits_by_kaku_to_right_bottom(flip_opponent_occupied, flip_self_occupied, 80 - from).bitor(Rule::gen_candidate_bits_by_kaku_to_right_top(flip_opponent_occupied, flip_self_occupied, 80 - from));
        if take_bit(board.merged_bitboard, (81 - o) as u32) {
            return Some(o);
        }
        if kind == KomaKind::SKakuN {
            Rule::win_only_move_once_with_point_and_kind_and_bitboard(Teban::Sente, self_occupied, opponent_ou_bitboard, from, kind)
        } else {
            None
        }
    }

    /// Where gote's bishop on `from` takes the opposing king (marked in `opponent_ou_bitboard`), if it does.
    pub fn win_only_move_gote_kaku_with_point_and_kind_and_bitboard(
        opponent_ou_bitboard: BitBoard,
        self_occupied: BitBoard,
        opponent_occupied: BitBoard,
        flip_self_occupied: BitBoard,
        flip_opponent_occupied: BitBoard,
        from: u32,
        kind: KomaKind,
    ) -> (r: Option<Square>)
        requires
            from < 81,
            within_board(opponent_ou_bitboard.merged_bitboard),
        ensures
            r == opt_square(win_gote_kaku_spec(opponent_ou_bitboard.merged_bitboard, self_occupied.merged_bitboard,
                opponent_occupied.merged_bitboard, flip_self_occupied.merged_bitboard, flip_opponent_occupied.merged_bitboard,
                from, kind)),
    {
        let mut ou = opponent_ou_bitboard;
        let o = Rule::pop_lsb(&mut ou);
        if o == -1 {
            proof {
                if opponent_ou_bitboard.merged_bitboard != 0 {
                    crate::bitboard::lemma_lowest_exists(opponent_ou_bitboard.merged_bitboard);
                    assert(has_bit(opponent_ou_bitboard.merged_bitboard, lowest_bit(opponent_ou_bitboard.merged_bitboard)));
                }
            }
            return None;
        }
        proof {
            crate::bitboard::lemma_lowest_exists(opponent_ou_bitboard.merged_bitboard);
            assert(has_bit(opponent_ou_bitboard.merged_bitboard, o + 1));
        }
        let board = Rule::gen_candidate_bits_by_kaku_to_right_bottom(flip_opponent_occupied, flip_self_occupied, from).bitor(Rule::gen_candidate_bits_by_kaku_to_right_top(flip_opponent_occupied, flip_self_occupied, from));
        if take_bit(board.merged_bitboard, (81 - o) as u32) {
            return Some(80 - o);
        }
        let board = Rule::gen_candidate_bits_by_kaku_to_right_bottom(self_occupied, opponent_occupied, 80 - from).bitor(Rule::gen_candidate_bits_by_kaku_to_right_top(self_occupied, opponent_occupied, 80 - from));
        if take_bit(board.merged_bitboard, (o + 1) as u32) {
            return Some(80 - o);
        }
        if kind == KomaKind::GKakuN {
            Rule::win_only_move_once_with_point_and_kind_and_bitboard(Teban::Gote, self_occupied, opponent_ou_bitboard, from, kind)
        } else {
            None
        }
    }

    /// Where sente's rook on `from` takes the opposing king (marked in `opponent_ou_bitboard`), if it does.
    pub fn win_only_move_sente_hisha_with_point_and_kind_and_bitboard(
        opponent_ou_bitboard: BitBoard,
        self_occupied: BitBoard,
        opponent_occupied: BitBoard,
        flip_self_occupied: BitBoard,
        flip_opponent_occupied: BitBoard,
        from: u32,
        kind: KomaKind,
    ) -> (r: Option<Square>)
        requires
            from < 81,
            within_board(opponent_ou_bitboard.merged_bitboard),
        ensures
            r == opt_square(win_sente_hisha_spec(opponent_ou_bitboard.merged_bitboard, self_occupied.merged_bitboard,
                opponent_occupied.merged_bitboard, flip_self_occupied.merged_bitboard, flip_opponent_occupied.merged_bitboard,
                from, kind)),
    {
        let mut ou = opponent_ou_bitboard;
        let o = Rule::pop_lsb(&mut ou);
        if o == -1 {
            proof {
                if opponent_ou_bitboard.merged_bitboard != 0 {
                    crate::bitboard::lemma_lowest_exists(opponent_ou_bitboard.merged_bitboard);
                    assert(has_bit(opponent_ou_bitboard.merged_bitboard, lowest_bit(opponent_ou_bitboard.merged_bitboard)));
                }
            }
            return None;
        }
        proof {
            crate::bitboard::lemma_lowest_exists(opponent_ou_bitboard.merged_bitboard);
            assert(has_bit(opponent_ou_bitboard.merged_bitboard, o + 1));
        }
        let board = Rule::gen_candidate_bits_by_hisha_or_kyou_to_top(flip_opponent_occupied, flip_self_occupied, 80 - from).bitor(Rule::gen_candidate_bits_by_hisha_to_right(flip_opponent_occupied, flip_self_occupied, 80 - from));
        if take_bit(board.merged_bitboard, (81 - o) as u32) {
            return Some(o);
        }
        let board = Rule::gen_candidate_bits_by_hisha_or_kyou_to_top(self_occupied, opponent_occupied, from).bitor(Rule::gen_candidate_bits_by_hisha_to_right(self_occupied, opponent_occupied, from));
        if take_bit(board.merged_bitboard, (o + 1) as u32) {
            return Some(o);
        }
        if kind == KomaKind::SHishaN {
            Rule::win_only_move_once_with_point_and_kind_and_bitboard(Teban::Sente, self_occupied, opponent_ou_bitboard, from, kind)
        } else {
            None
        }
    }

    /// Where gote's rook on `from` takes the opposing king (marked in `opponent_ou_bitboard`), if it does.
    pub fn win_only_move_gote_hisha_with_point_and_kind_and_bitboard(
        opponent_ou_bitboard: BitBoard,
        self_occupied: BitBoard,
        opponent_occupied: BitBoard,
        flip_self_occupied: BitBoard,
        flip_opponent_occupied: BitBoard,
        from: u32,
        kind: KomaKind,
    ) -> (r: Option<Square>)
        requires
            from < 81,
            within_board(opponent_ou_bitboard.merged_bitboard),
        ensures
            r == opt_square(win_gote_hisha_spec(opponent_ou_bitboard.merged_bitboard, self_occupied.merged_bitboard,
                opponent_occupied.merged_bitboard, flip_self_occupied.merged_bitboard, flip_opponent_occupied.merged_bitboard,
                from, kind)),
    {
        let mut ou = opponent_ou_bitboard;
        let o = Rule::pop_lsb(&mut ou);
        if o == -1 {
            proof {
                if opponent_ou_bitboard.merged_bitboard != 0 {
                    crate::bitboard::lemma_lowest_exists(opponent_ou_bitboard.merged_bitboard);
                    assert(has_bit(opponent_ou_bitboard.merged_bitboard, lowest_bit(opponent_ou_bitboard.merged_bitboard)));
                }
            }
            return None;
        }
        proof {
            crate::bitboard::lemma_lowest_exists(opponent_ou_bitboard.merged_bitboard);
            assert(has_bit(opponent_ou_bitboard.merged_bitboard, o + 1));
        }
        let board = Rule::gen_candidate_bits_by_hisha_or_kyou_to_top(flip_opponent_occupied, flip_self_occupied, from).bitor(Rule::gen_candidate_bits_by_hisha_to_right(flip_opponent_occupied, flip_self_occupied, from));
        if take_bit(board.merged_bitboard, (81 - o) as u32) {
            return Some(80 - o);
        }
        let board = Rule::gen_candidate_bits_by_hisha_or_kyou_to_top(self_occupied, opponent_occupied, 80 - from).bitor(Rule::gen_candidate_bits_by_hisha_to_right(self_occupied, opponent_occupied, 80 - from));
        if take_bit(board.merged_bitboard, (o + 1) as u32) {
            return Some(80 - o);
        }
        if kind == KomaKind::GHishaN {
            Rule::win_only_move_once_with_point_and_kind_and_bitboard(Teban::Gote, self_occupied, opponent_ou_bitboard, from, kind)
        } else {
            None
        }
    }

    /// Where sente's lance on `from` takes the opposing king, if it does.
    pub fn win_only_move_sente_kyou_with_point_and_kind_and_bitboard(
        opponent_ou_bitboard: BitBoard,
        flip_self_occupied: BitBoard,
        flip_opponent_occupied: BitBoard,
        from: u32,
    ) -> (r: Option<Square>)
        requires
            from < 81,
            within_board(opponent_ou_bitboard.merged_bitboard),
        ensures
            r == opt_square(win_sente_kyou_spec(opponent_ou_bitboard.merged_bitboard, flip_self_occupied.merged_bitboard,
                flip_opponent_occupied.merged_bitboard, from)),
    {
        let mut ou = opponent_ou_bitboard;
        let o = Rule::pop_lsb(&mut ou);
        if o == -1 {
            proof {
                if opponent_ou_bitboard.merged_bitboard != 0 {
                    crate::bitboard::lemma_lowest_exists(opponent_ou_bitboard.merged_bitboard);
                    assert(has_bit(opponent_ou_bitboard.merged_bitboard, lowest_bit(opponent_ou_bitboard.merged_bitboard)));
                }
            }
            return None;
        }
        proof {
            crate::bitboard::lemma_lowest_exists(opponent_ou_bitboard.merged_bitboard);
            assert(has_bit(opponent_ou_bitboard.merged_bitboard, o + 1));
        }
        let board = Rule::gen_candidate_bits_by_hisha_or_kyou_to_top(flip_self_occupied, flip_opponent_occupied, 80 - from);
        if take_bit(board.merged_bitboard, (81 - o) as u32) {
            Some(o)
        } else {
            None
        }
    }

    /// Where gote's lance on `from` takes the opposing king, if it does.
    pub fn win_only_move_gote_kyou_with_point_and_kind_and_bitboard(
        opponent_ou_bitboard: BitBoard,
        flip_self_occupied: BitBoard,
        flip_opponent_occupied: BitBoard,
        from: u32,
    ) -> (r: Option<Square>)
        requires
            from < 81,
            within_board(opponent_ou_bitboard.merged_bitboard),
        ensures
            r == opt_square(win_gote_kyou_spec(opponent_ou_bitboard.merged_bitboard, flip_self_occupied.merged_bitboard,
                flip_opponent_occupied.merged_bitboard, from)),
    {
        let mut ou = opponent_ou_bitboard;
        let o = Rule::pop_lsb(&mut ou);
        if o == -1 {
            proof {
                if opponent_ou_bitboard.merged_bitboard != 0 {
                    crate::bitboard::lemma_lowest_exists(opponent_ou_bitboard.merged_bitboard);
                    assert(has_bit(opponent_ou_bitboard.merged_bitboard, lowest_bit(opponent_ou_bitboard.merged_bitboard)));
                }
            }
            return None;
        }
        proof {
            crate::bitboard::lemma_lowest_exists(opponent_ou_bitboard.merged_bitboard);
            assert(has_bit(opponent_ou_bitboard.merged_bitboard, o + 1));
        }
        let board = Rule::gen_candidate_bits_by_hisha_or_kyou_to_top(flip_self_occupied, flip_opponent_occupied, from);
        if take_bit(board.merged_bitboard, (81 - o) as u32) {
            Some(80 - o)
        } else {
            None
        }
    }
}

/// Both kings' boards lie within the board.
pub open spec fn ou_boards_within(ps: PartialState) -> bool {
    within_board(ps.sente_opponent_ou_position_board.merged_bitboard)
        && within_board(ps.gote_opponent_ou_position_board.merged_bitboard)
}

/// Whether the piece of `kind` on `from`, belonging to side `t`, takes the opposing king next.
pub open spec fn mate_from_spec(t: Teban, ps: PartialState, from: u32, kind: KomaKind) -> bool {
    let i = kind_index(kind);
    let ss = ps.sente_self_board.merged_bitboard;
    let so = ps.sente_opponent_board.merged_bitboard;
    let gs = ps.gote_self_board.merged_bitboard;
    let go = ps.gote_opponent_board.merged_bitboard;
    let sou = ps.sente_opponent_ou_position_board.merged_bitboard;
    let gou = ps.gote_opponent_ou_position_board.merged_bitboard;
    match t {
        Teban::Sente => if i == 0 || i == 2 || i == 3 || i == 4 || i == 7 || (8 <= i <= 11) {
            win_once_spec(t, ss, sou, from, kind) is Some
        } else if i == 1 {
            win_sente_kyou_spec(sou, go, gs, from) is Some
        } else if i == 5 || i == 12 {
            win_sente_kaku_spec(sou, ss, so, gs, go, from, kind) is Some
        } else if i == 6 || i == 13 {
            win_sente_hisha_spec(sou, ss, so, gs, go, from, kind) is Some
        } else {
            false
        },
        Teban::Gote => if i == 14 || i == 16 || i == 17 || i == 18 || i == 21 || (22 <= i <= 25) {
            win_once_spec(t, gs, gou, from, kind) is Some
        } else if i == 15 {
            win_gote_kyou_spec(gou, so, ss, from) is Some
        } else if i == 19 || i == 26 {
            win_gote_kaku_spec(gou, gs, go, ss, so, from, kind) is Some
        } else if i == 20 || i == 27 {
            win_gote_hisha_spec(gou, gs, go, ss, so, from, kind) is Some
        } else {
            false
        },
    }
}

/// Whether some piece of side `t` takes the opposing king next.
pub open spec fn is_mate_spec(t: Teban, state: State) -> bool {
    exists|s: int| 0 <= s < 81 && #[trigger] mate_from_spec(t, state.part_spec(), s as u32, square_kind(state.banmen_spec(), s))
}

/// The pieces of side `t` that move one step at a time: pawn, knight, silver,
/// gold, king, and the promoted pawn, lance, knight and silver.
pub open spec fn stepping_piece(t: Teban, k: KomaKind) -> bool {
    match k {
        KomaKind::SFu | KomaKind::SKei | KomaKind::SGin | KomaKind::SKin | KomaKind::SOu
            | KomaKind::SFuN | KomaKind::SKyouN | KomaKind::SKeiN | KomaKind::SGinN => t == Teban::Sente,
        KomaKind::GFu | KomaKind::GKei | KomaKind::GGin | KomaKind::GKin | KomaKind::GOu
            | KomaKind::GFuN | KomaKind::GKyouN | KomaKind::GKeiN | KomaKind::GGinN => t == Teban::Gote,
        _ => false,
    }
}

/// A stepping piece of side `t` on square `s` whose move pattern (the squares
/// move generation lets it reach) holds the opposing king gives check: the
/// mate test holds for side `t`.
pub proof fn law_step_attack_is_check(t: Teban, state: State, s: int)
    requires
        0 <= s < 81,
        stepping_piece(t, square_kind(state.banmen_spec(), s)),
        t == Teban::Sente ==> (state.part_spec().sente_opponent_ou_position_board.merged_bitboard & candidate_board(t,
            state.part_spec().sente_self_board.merged_bitboard, s as u32, square_kind(state.banmen_spec(), s))) != 0,
        t == Teban::Gote ==> (state.part_spec().gote_opponent_ou_position_board.merged_bitboard & candidate_board(t,
            state.part_spec().gote_self_board.merged_bitboard, s as u32, square_kind(state.banmen_spec(), s))) != 0,
    ensures
        is_mate_spec(t, state),
{
    assert(mate_from_spec(t, state.part_spec(), s as u32, square_kind(state.banmen_spec(), s)));
}

/// The square of the opposing king of side `t` (from its king board, counted
/// from sente's side for sente and from gote's side for gote), when there is one.
pub open spec fn opposing_king_bit(t: Teban, p: PartialState) -> u128 {
    if t == Teban::Sente {
        p.sente_opponent_ou_position_board.merged_bitboard
    } else {
        p.gote_opponent_ou_position_board.merged_bitboard
    }
}

/// The ray of a lance, bishop or rook of side `t` on square `s`, as move
/// generation traces it, reaches the opposing king: a lance up (down for gote)
/// its column, a bishop along its diagonals, a rook along its column and row.
pub open spec fn ray_reaches_king(t: Teban, p: PartialState, s: int, k: KomaKind) -> bool {
    let ss = p.sente_self_board.merged_bitboard;
    let so = p.sente_opponent_board.merged_bitboard;
    let gs = p.gote_self_board.merged_bitboard;
    let go = p.gote_opponent_board.merged_bitboard;
    let ou = opposing_king_bit(t, p);
    let o = lowest_bit(ou) - 1;
    &&& ou != 0
    &&& match k {
        KomaKind::SKyou => t == Teban::Sente && has_bit(hisha_top_bits(go, gs, go, 80 - s), 81 - o),
        KomaKind::SKaku | KomaKind::SKakuN => t == Teban::Sente
            && has_bit(kaku_rb_bits(ss, so, ss, s) | kaku_rt_bits(ss, so, ss, s), o + 1),
        KomaKind::SHisha | KomaKind::SHishaN => t == Teban::Sente
            && has_bit(hisha_top_bits(go, gs, go, 80 - s) | hisha_right_bits(go, gs, go, 80 - s), 81 - o),
        KomaKind::GKyou => t == Teban::Gote && has_bit(hisha_top_bits(so, ss, so, s), 81 - o),
        KomaKind::GKaku | KomaKind::GKakuN => t == Teban::Gote
            && has_bit(kaku_rb_bits(so, ss, so, s) | kaku_rt_bits(so, ss, so, s), 81 - o),
        KomaKind::GHisha | KomaKind::GHishaN => t == Teban::Gote
            && has_bit(hisha_top_bits(so, ss, so, s) | hisha_right_bits(so, ss, so, s), 81 - o),
        _ => false,
    }
}

/// A lance, bishop or rook of side `t` on square `s` whose ray reaches the
/// opposing king gives check: the mate test holds for side `t`.
pub proof fn law_ray_attack_is_check(t: Teban, state: State, s: int)
    requires
        0 <= s < 81,
        ray_reaches_king(t, state.part_spec(), s, square_kind(state.banmen_spec(), s)),
    ensures
        is_mate_spec(t, state),
{
    assert(mate_from_spec(t, state.part_spec(), s as u32, square_kind(state.banmen_spec(), s)));
}

/// The kind the mate test sees on square `s` once the opponent of `t` has
/// played `m` on `b`: the origin is looked at before the destination.
pub open spec fn kind_seen_after(b: Banmen, t: Teban, m: AppliedMove, s: int) -> KomaKind {
    match m {
        AppliedMove::To(mt) => if s == mt.src_spec() {
            KomaKind::Blank
        } else if s == mt.dst_spec() {
            let k = square_kind(b, mt.src_spec() as int);
            if mt.nari_spec() { nari_of(k) } else { k }
        } else {
            square_kind(b, s)
        },
        AppliedMove::Put(mp) => if s == mp.dst_spec() {
            kind_of_put(opposite_of(t), mp.kind_spec())
        } else {
            square_kind(b, s)
        },
    }
}

impl Rule {
    /// Whether the piece of `kind` on `from`, belonging to side `t`, takes the opposing king next.
    pub fn is_mate_with_partial_state_and_from_and_kind(t: Teban, ps: &PartialState, from: u32, kind: KomaKind) -> (r: bool)
        requires
            from < 81,
            ou_boards_within(*ps),
        ensures
            r == mate_from_spec(t, *ps, from, kind),
    {
        let i = kind.to_index();
        let r = match t {
            Teban::Sente => {
                if i == 0 || i == 2 || i == 3 || i == 4 || i == 7 || (8 <= i && i <= 11) {
                    Rule::win_only_move_once_with_point_and_kind_and_bitboard(
                        t, ps.sente_self_board, ps.sente_opponent_ou_position_board, from, kind)
                } else if i == 1 {
                    Rule::win_only_move_sente_kyou_with_point_and_kind_and_bitboard(
                        ps.sente_opponent_ou_position_board, ps.gote_opponent_board, ps.gote_self_board, from)
                } else if i == 5 || i == 12 {
                    Rule::win_only_move_sente_kaku_with_point_and_kind_and_bitboard(
                        ps.sente_opponent_ou_position_board, ps.sente_self_board, ps.sente_opponent_board,
                        ps.gote_self_board, ps.gote_opponent_board, from, kind)
                } else if i == 6 || i == 13 {
                    Rule::win_only_move_sente_hisha_with_point_and_kind_and_bitboard(
                        ps.sente_opponent_ou_position_board, ps.sente_self_board, ps.sente_opponent_board,
                        ps.gote_self_board, ps.gote_opponent_board, from, kind)
                } else {
                    None
                }
            },
            Teban::Gote => {
                if i == 14 || i == 16 || i == 17 || i == 18 || i == 21 || (22 <= i && i <= 25) {
                    Rule::win_only_move_once_with_point_and_kind_and_bitboard(
                        t, ps.gote_self_board, ps.gote_opponent_ou_position_board, from, kind)
                } else if i == 15 {
                    Rule::win_only_move_gote_kyou_with_point_and_kind_and_bitboard(
                        ps.gote_opponent_ou_position_board, ps.sente_opponent_board, ps.sente_self_board, from)
                } else if i == 19 || i == 26 {
                    Rule::win_only_move_gote_kaku_with_point_and_kind_and_bitboard(
                        ps.gote_opponent_ou_position_board, ps.gote_self_board, ps.gote_opponent_board,
                        ps.sente_self_board, ps.sente_opponent_board, from, kind)
                } else if i == 20 || i == 27 {
                    Rule::win_only_move_gote_hisha_with_point_and_kind_and_bitboard(
                        ps.gote_opponent_ou_position_board, ps.gote_self_board, ps.gote_opponent_board,
                        ps.sente_self_board, ps.sente_opponent_board, from, kind)
                } else {
                    None
                }
            },
        };
        r.is_some()
    }

    /// Whether the piece of `kind` on column `x`, row `y`, belonging to side `t`, takes the opposing king next.
    pub fn is_mate_with_partial_state_and_point_and_kind(t: Teban, ps: &PartialState, x: u32, y: u32, kind: KomaKind) -> (r: bool)
        requires
            x < 9,
            y < 9,
            ou_boards_within(*ps),
        ensures
            r == mate_from_spec(t, *ps, (x * 9 + y) as u32, kind),
    {
        let from = x * 9 + y;
        Rule::is_mate_with_partial_state_and_from_and_kind(t, ps, from, kind)
    }

    /// Whether some piece of side `t` takes the opposing king next.
    pub fn is_mate(t: Teban, state: &State) -> (r: bool)
        requires
            ou_boards_within(state.part_spec()),
        ensures
            r == is_mate_spec(t, *state),
    {
        let ps = state.get_part();
        let kinds = state.get_banmen().0;
        let mut s: u32 = 0;
        while s < 81
            invariant
                s <= 81,
                *ps == state.part_spec(),
                kinds == state.banmen_spec().0,
                ou_boards_within(state.part_spec()),
                forall|j: int| 0 <= j < s ==> !#[trigger] mate_from_spec(t, state.part_spec(), j as u32, square_kind(state.banmen_spec(), j)),
            decreases 81 - s,
        {
            proof {
                lemma_point_x(s);
                crate::rule::apply::lemma_square_split_pub(s as int);
            }
            let (x, y) = s.square_to_point();
            let kind = kinds[y as usize][x as usize];
            if Rule::is_mate_with_partial_state_and_point_and_kind(t, ps, x, y, kind) {
                proof {
                    vstd::arithmetic::div_mod::lemma_fundamental_div_mod(s as int, 9);
                    assert(mate_from_spec(t, state.part_spec(), s, square_kind(state.banmen_spec(), s as int)));
                }
                return true;
            }
            proof {
                vstd::arithmetic::div_mod::lemma_fundamental_div_mod(s as int, 9);
            }
            s = s + 1;
        }
        false
    }

    /// Whether the king of side `t` is in check: the opponent could take it next.
    pub fn in_check(t: Teban, state: &State) -> (r: bool)
        requires
            ou_boards_within(state.part_spec()),
        ensures
            r == is_mate_spec(opposite_of(t), *state),
    {
        Rule::is_mate(t.opposite(), state)
    }

    /// Whether some piece of side `t` takes the opposing king next, on the
    /// board the opponent's move `m` leaves (the bitboards `ps` are those after the move).
    #[verifier::rlimit(40)]
    pub fn is_mate_with_partial_state_and_old_banmen_and_opponent_move(
        t: Teban,
        banmen: &Banmen,
        ps: &PartialState,
        m: AppliedMove,
    ) -> (r: bool)
        requires
            crate::rule::apply::move_on_board(m),
            ou_boards_within(*ps),
        ensures
            r == exists|s: int| 0 <= s < 81 && #[trigger] mate_from_spec(t, *ps, s as u32, kind_seen_after(*banmen, t, m, s)),
    {
        let kinds = banmen.0;
        let mut s: u32 = 0;
        while s < 81
            invariant
                s <= 81,
                kinds == banmen.0,
                crate::rule::apply::move_on_board(m),
                ou_boards_within(*ps),
                forall|j: int| 0 <= j < s ==> !#[trigger] mate_from_spec(t, *ps, j as u32, kind_seen_after(*banmen, t, m, j)),
            decreases 81 - s,
        {
            proof {
                lemma_point_x(s);
                crate::rule::apply::lemma_square_split_pub(s as int);
                vstd::arithmetic::div_mod::lemma_fundamental_div_mod(s as int, 9);
            }
            let (x, y) = s.square_to_point();
            let kind = match m {
                AppliedMove::To(mt) => {
                    let src = mt.src();
                    let dst = mt.dst();
                    if s == src {
                        KomaKind::Blank
                    } else if s == dst {
                        proof {
                            lemma_point_x(src);
                            crate::rule::apply::lemma_square_split_pub(src as int);
                        }
                        let (sx, sy) = src.square_to_point();
                        let k = kinds[sy as usize][sx as usize];
                        if mt.is_nari() { k.to_nari() } else { k }
                    } else {
                        kinds[y as usize][x as usize]
                    }
                },
                AppliedMove::Put(mp) => {
                    if s == mp.dst() {
                        KomaKind::from_put(t.opposite(), mp.kind())
                    } else {
                        kinds[y as usize][x as usize]
                    }
                },
            };
            if Rule::is_mate_with_partial_state_and_point_and_kind(t, ps, x, y, kind) {
                proof {
                    assert(mate_from_spec(t, *ps, s, kind_seen_after(*banmen, t, m, s as int)));
                }
                return true;
            }
            s = s + 1;
        }
        false
    }
}

/// The moves taking the king on `m` (turned around when `inverse`) with the
/// piece `kind` from `from`: the promoting one where the promotion board holds
/// the destination or the origin, and the plain one unless the destination is denied.
pub open spec fn win_moves_of(m: int, from: u32, kind: KomaKind, nari_mask: u128, deny_move_mask: u128, inverse: bool) -> Seq<LegalMove> {
    let to: u32 = if inverse { (80 - m) as u32 } else { m as u32 };
    let to_mask = 1u128 << (to as u128);
    let from_mask = 1u128 << (from as u128);
    let a = if !is_nari_kind(kind) && ((nari_mask & to_mask) != 0 || (nari_mask & from_mask) != 0) {
        seq![LegalMove::To(LegalMoveTo::from_parts(from, to, true, Some(ObtainKind::Ou)))]
    } else {
        seq![]
    };
    let b = if (deny_move_mask & to_mask) == 0 {
        seq![LegalMove::To(LegalMoveTo::from_parts(from, to, false, Some(ObtainKind::Ou)))]
    } else {
        seq![]
    };
    a + b
}

/// Where the piece of `kind` on `from`, moved by side `t`, takes the king,
/// and whether that square is turned around (`None` when it does not, or the
/// piece is not the side's).
pub open spec fn win_point_target(t: Teban, ps: PartialState, from: u32, kind: KomaKind) -> Option<(int, bool)> {
    let i = kind_index(kind);
    let ss = ps.sente_self_board.merged_bitboard;
    let so = ps.sente_opponent_board.merged_bitboard;
    let gs = ps.gote_self_board.merged_bitboard;
    let go = ps.gote_opponent_board.merged_bitboard;
    let own = if i < 14 { ss } else { gs };
    let ou = if i < 14 { ps.sente_opponent_ou_position_board.merged_bitboard } else { ps.gote_opponent_ou_position_board.merged_bitboard };
    let r: Option<int> = if i >= 28 {
        None
    } else if i == 0 || i == 2 || i == 3 || i == 4 || i == 7 || (8 <= i <= 11) || i == 14 || i == 16 || i == 17
        || i == 18 || i == 21 || (22 <= i <= 25) {
        if (t == Teban::Sente && i >= 14) || (t == Teban::Gote && i < 14) { None } else { win_once_spec(t, own, ou, from, kind) }
    } else if i == 1 && t == Teban::Sente {
        win_sente_kyou_spec(ou, go, gs, from)
    } else if (i == 5 || i == 12) && t == Teban::Sente {
        win_sente_kaku_spec(ou, ss, so, gs, go, from, kind)
    } else if (i == 6 || i == 13) && t == Teban::Sente {
        win_sente_hisha_spec(ou, ss, so, gs, go, from, kind)
    } else if i == 15 && t == Teban::Gote {
        win_gote_kyou_spec(ou, so, ss, from)
    } else if (i == 19 || i == 26) && t == Teban::Gote {
        win_gote_kaku_spec(ou, gs, go, ss, so, from, kind)
    } else if (i == 20 || i == 27) && t == Teban::Gote {
        win_gote_hisha_spec(ou, gs, go, ss, so, from, kind)
    } else {
        None
    };
    let once = i == 0 || i == 2 || i == 3 || i == 4 || i == 7 || (8 <= i <= 11) || i == 14 || i == 16 || i == 17
        || i == 18 || i == 21 || (22 <= i <= 25);
    match r {
        Some(p) => Some((p, once && t == Teban::Gote)),
        None => None,
    }
}

/// The moves of the piece of `kind` on `from`, moved by side `t`, that take the opposing king.
pub open spec fn win_point_moves(t: Teban, ps: PartialState, from: u32, kind: KomaKind) -> Seq<LegalMove> {
    match win_point_target(t, ps, from, kind) {
        Some((p, inv)) => win_moves_of(p, from, kind, kind_masks(kind).0, kind_masks(kind).1, inv),
        None => seq![],
    }
}

/// The square visited `k`-th by side `t` when it walks the board (rows from
/// the top for sente, from the bottom for gote).
pub open spec fn walk_square(t: Teban, k: int) -> int {
    let x = k % 9;
    let y = k / 9;
    if t == Teban::Sente { x * 9 + y } else { (8 - x) * 9 + (8 - y) }
}

/// The moves taking the king over the first `n` squares of side `t`'s walk.
pub open spec fn win_walk_moves(t: Teban, state: State, n: int) -> Seq<LegalMove>
    decreases n,
{
    if n <= 0 {
        seq![]
    } else {
        let s = walk_square(t, n - 1);
        win_walk_moves(t, state, n - 1) + win_point_moves(t, state.part_spec(), s as u32, square_kind(state.banmen_spec(), s))
    }
}

impl Rule {
    /// Adds to `mvs` the moves of the piece `kind` from `from` that take the king on `m`.
    pub fn append_win_only_move(
        m: Square,
        from: u32,
        kind: KomaKind,
        nari_mask: u128,
        deny_move_mask: u128,
        inverse_position: bool,
        mvs: &mut Vec<LegalMove>,
    )
        requires
            0 <= m <= 80,
            from < 81,
        ensures
            final(mvs)@ == old(mvs)@ + win_moves_of(m as int, from, kind, nari_mask, deny_move_mask, inverse_position),
    {
        let ghost old_mvs = mvs@;
        let to = m as u32;
        let to = if inverse_position { 80 - to } else { to };
        let to_mask: u128 = 1u128 << (to as u128);
        let from_mask: u128 = 1u128 << (from as u128);
        let nari = kind.is_nari();
        let o = Some(ObtainKind::Ou);
        if !nari && ((nari_mask & to_mask) != 0 || (nari_mask & from_mask) != 0) {
            mvs.push(LegalMove::To(LegalMoveTo::new(from, to, true, o)));
        }
        if (deny_move_mask & to_mask) == 0 {
            mvs.push(LegalMove::To(LegalMoveTo::new(from, to, false, o)));
        }
        proof {
            assert(mvs@ =~= old_mvs + win_moves_of(m as int, from, kind, nari_mask, deny_move_mask, inverse_position));
        }
    }

    /// Adds to `mvs` the moves of the piece of `kind` on column `x`, row `y`,
    /// moved by side `t`, that take the opposing king.
    pub fn win_only_moves_with_point_and_kind_and_buffer(
        t: Teban,
        state: &State,
        x: u32,
        y: u32,
        kind: KomaKind,
        mvs: &mut Vec<LegalMove>,
    )
        requires
            x < 9,
            y < 9,
            ou_boards_within(state.part_spec()),
        ensures
            final(mvs)@ == old(mvs)@ + win_point_moves(t, state.part_spec(), (x * 9 + y) as u32, kind),
    {
        let ghost old_mvs = mvs@;
        let from = x * 9 + y;
        let ps = state.get_part();
        let i = kind.to_index();
        let (nari_mask, deny_move_mask): (u128, u128) = if i == 0 || i == 1 {
            (SENTE_NARI_MASK, DENY_MOVE_SENTE_FU_AND_KYOU_MASK)
        } else if i == 2 {
            (SENTE_NARI_MASK, DENY_MOVE_SENTE_KEI_MASK)
        } else if i == 3 || i == 5 || i == 6 {
            (SENTE_NARI_MASK, 0)
        } else if i == 14 || i == 15 {
            (GOTE_NARI_MASK, DENY_MOVE_GOTE_FU_AND_KYOU_MASK)
        } else if i == 16 {
            (GOTE_NARI_MASK, DENY_MOVE_GOTE_KEI_MASK)
        } else if i == 17 || i == 19 || i == 20 {
            (GOTE_NARI_MASK, 0)
        } else if i < 28 {
            (0, 0)
        } else {
            proof {
                assert(mvs@ =~= old_mvs + win_point_moves(t, state.part_spec(), from, kind));
            }
            return;
        };
        let (self_bitboard, ou_position_board) = if i < 14 {
            (ps.sente_self_board, ps.sente_opponent_ou_position_board)
        } else {
            (ps.gote_self_board, ps.gote_opponent_ou_position_board)
        };
        let once = i == 0 || i == 2 || i == 3 || i == 4 || i == 7 || (8 <= i && i <= 11) || i == 14 || i == 16 || i == 17
            || i == 18 || i == 21 || (22 <= i && i <= 25);
        let target = if once {
            if (t == Teban::Sente && i >= 14) || (t == Teban::Gote && i < 14) {
                None
            } else {
                Rule::win_only_move_once_with_point_and_kind_and_bitboard(t, self_bitboard, ou_position_board, from, kind)
            }
        } else if i == 1 && t == Teban::Sente {
            Rule::win_only_move_sente_kyou_with_point_and_kind_and_bitboard(ou_position_board, ps.gote_opponent_board, ps.gote_self_board, from)
        } else if (i == 5 || i == 12) && t == Teban::Sente {
            Rule::win_only_move_sente_kaku_with_point_and_kind_and_bitboard(ou_position_board, ps.sente_self_board,
                ps.sente_opponent_board, ps.gote_self_board, ps.gote_opponent_board, from, kind)
        } else if (i == 6 || i == 13) && t == Teban::Sente {
            Rule::win_only_move_sente_hisha_with_point_and_kind_and_bitboard(ou_position_board, ps.sente_self_board,
                ps.sente_opponent_board, ps.gote_self_board, ps.gote_opponent_board, from, kind)
        } else if i == 15 && t == Teban::Gote {
            Rule::win_only_move_gote_kyou_with_point_and_kind_and_bitboard(ou_position_board, ps.sente_opponent_board, ps.sente_self_board, from)
        } else if (i == 19 || i == 26) && t == Teban::Gote {
            Rule::win_only_move_gote_kaku_with_point_and_kind_and_bitboard(ou_position_board, ps.gote_self_board,
                ps.gote_opponent_board, ps.sente_self_board, ps.sente_opponent_board, from, kind)
        } else if (i == 20 || i == 27) && t == Teban::Gote {
            Rule::win_only_move_gote_hisha_with_point_and_kind_and_bitboard(ou_position_board, ps.gote_self_board,
                ps.gote_opponent_board, ps.sente_self_board, ps.sente_opponent_board, from, kind)
        } else {
            None
        };
        match target {
            Some(p) => {
                proof {
                    lemma_win_target_range(t, state.part_spec(), from, kind);
                }
                Rule::append_win_only_move(p, from, kind, nari_mask, deny_move_mask, once && t == Teban::Gote, mvs);
            },
            None => {
                proof {
                    assert(mvs@ =~= old_mvs + win_point_moves(t, state.part_spec(), from, kind));
                }
            },
        }
    }

    /// The moves of the piece of `kind` on column `x`, row `y`, moved by side `t`, that take the opposing king.
    pub fn win_only_moves_with_point_and_kind(t: Teban, state: &State, x: u32, y: u32, kind: KomaKind) -> (r: Vec<LegalMove>)
        requires
            x < 9,
            y < 9,
            ou_boards_within(state.part_spec()),
        ensures
            r@ == win_point_moves(t, state.part_spec(), (x * 9 + y) as u32, kind),
    {
        let mut mvs: Vec<LegalMove> = Vec::new();
        Rule::win_only_moves_with_point_and_kind_and_buffer(t, state, x, y, kind, &mut mvs);
        proof {
            assert(mvs@ =~= win_point_moves(t, state.part_spec(), (x * 9 + y) as u32, kind));
        }
        mvs
    }

    /// The moves of the piece on column `x`, row `y`, moved by side `t`, that take the opposing king.
    pub fn win_only_moves_with_point(t: Teban, state: &State, x: u32, y: u32) -> (r: Vec<LegalMove>)
        requires
            x < 9,
            y < 9,
            ou_boards_within(state.part_spec()),
        ensures
            r@ == win_point_moves(t, state.part_spec(), (x * 9 + y) as u32, square_kind(state.banmen_spec(), (x * 9 + y) as int)),
    {
        proof {
            let s = (x * 9 + y) as int;
            vstd::arithmetic::div_mod::lemma_fundamental_div_mod_converse(s, 9, x as int, y as int);
        }
        let kind = state.get_banmen().0[y as usize][x as usize];
        Rule::win_only_moves_with_point_and_kind(t, state, x, y, kind)
    }

    /// The king-taking moves of the piece on the origin `src` (counted from 1, column from the right).
    pub fn win_only_moves_with_src(t: Teban, state: &State, src: KomaSrcPosition) -> (r: Vec<LegalMove>)
        requires
            1 <= src.0 <= 9,
            1 <= src.1 <= 9,
            ou_boards_within(state.part_spec()),
        ensures
            r@ == win_point_moves(t, state.part_spec(), ((9 - src.0) * 9 + (src.1 - 1)) as u32,
                square_kind(state.banmen_spec(), (9 - src.0) * 9 + (src.1 - 1))),
    {
        Rule::win_only_moves_with_point(t, state, 9 - src.0, src.1 - 1)
    }

    /// The king-taking moves of the piece on the square `dst` names.
    pub fn win_only_moves_with_dst_to(t: Teban, state: &State, dst: KomaDstToPosition) -> (r: Vec<LegalMove>)
        requires
            1 <= dst.0 <= 9,
            1 <= dst.1 <= 9,
            ou_boards_within(state.part_spec()),
        ensures
            r@ == win_point_moves(t, state.part_spec(), ((9 - dst.0) * 9 + (dst.1 - 1)) as u32,
                square_kind(state.banmen_spec(), (9 - dst.0) * 9 + (dst.1 - 1))),
    {
        Rule::win_only_moves_with_point(t, state, 9 - dst.0, dst.1 - 1)
    }

    /// The king-taking moves of the piece on the square `dst` names.
    pub fn win_only_moves_with_dst_put(t: Teban, state: &State, dst: KomaDstPutPosition) -> (r: Vec<LegalMove>)
        requires
            1 <= dst.0 <= 9,
            1 <= dst.1 <= 9,
            ou_boards_within(state.part_spec()),
        ensures
            r@ == win_point_moves(t, state.part_spec(), ((9 - dst.0) * 9 + (dst.1 - 1)) as u32,
                square_kind(state.banmen_spec(), (9 - dst.0) * 9 + (dst.1 - 1))),
    {
        Rule::win_only_moves_with_point(t, state, 9 - dst.0, dst.1 - 1)
    }

    /// Every move of side `t` that takes the opposing king, square by square along its walk of the board.
    pub fn win_only_moves(t: Teban, state: &State) -> (r: Vec<LegalMove>)
        requires
            ou_boards_within(state.part_spec()),
        ensures
            r@ == win_walk_moves(t, *state, 81),
    {
        let mut mvs: Vec<LegalMove> = Vec::new();
        let kinds = state.get_banmen().0;
        let mut k: u32 = 0;
        proof {
            assert(mvs@ =~= win_walk_moves(t, *state, 0));
        }
        while k < 81
            invariant
                k <= 81,
                kinds == state.banmen_spec().0,
                ou_boards_within(state.part_spec()),
                mvs@ == win_walk_moves(t, *state, k as int),
            decreases 81 - k,
        {
            let x = k % 9;
            let y = k / 9;
            let (x, y) = match t {
                Teban::Sente => (x, y),
                Teban::Gote => (8 - x, 8 - y),
            };
            proof {
                let s = (x * 9 + y) as int;
                vstd::arithmetic::div_mod::lemma_fundamental_div_mod_converse(s, 9, x as int, y as int);
                assert(s == walk_square(t, k as int));
            }
            Rule::win_only_moves_with_point_and_kind_and_buffer(t, state, x, y, kinds[y as usize][x as usize], &mut mvs);
            k = k + 1;
        }
        mvs
    }
}

/// The king-taking target of a piece lies on the board.
proof fn lemma_win_target_range(t: Teban, ps: PartialState, from: u32, kind: KomaKind)
    requires
        ou_boards_within(ps),
    ensures
        win_point_target(t, ps, from, kind) matches Some((p, _)) ==> 0 <= p <= 80,
{
    let i = kind_index(kind);
    let own = if i < 14 { ps.sente_self_board.merged_bitboard } else { ps.gote_self_board.merged_bitboard };
    let ou = if i < 14 { ps.sente_opponent_ou_position_board.merged_bitboard } else { ps.gote_opponent_ou_position_board.merged_bitboard };
    if ou == 0 {
        lemma_zero_and(candidate_board(t, own, from, kind));
    } else {
        crate::bitboard::lemma_lowest_exists(ou);
        assert(has_bit(ou, lowest_bit(ou)));
        assert(1 <= lowest_bit(ou) <= 81);
    }
}

/// Nothing survives a mask with no bits.
proof fn lemma_zero_and(x: u128)
    by (bit_vector)
    ensures
        (0u128 & x) == 0u128,
{
}

} // verus!
