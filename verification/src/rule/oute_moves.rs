//! Move lists filtered by check: the moves that give check, and those that answer it.
use vstd::prelude::*;
use crate::bitboard::{BitBoard, has_bit};
use crate::shogi::{KomaKind, Teban, MochigomaCollections, ObtainKind, kind_of_put, nari_of, opposite_of, kind_index};
use crate::rule::{Rule, LegalMove, AppliedMove, applied_of_legal};
use crate::rule::state::{State, PartialState, field_board, bit_pos, square_kind};
use crate::rule::apply::{move_on_board, field_after_move, field_update, field_after_to, field_after_put, bit_of};
use crate::rule::movegen::{within_board, banmen_moves, mochigoma_moves};
use crate::rule::mate::{mate_from_spec, ou_boards_within, kind_seen_after, is_mate_spec, win_walk_moves};
use crate::rule::oute::{parts_within, bits_count};
use crate::rule::masks::{NYUGYOKU_MASK, SENTE_NARI_MASK, GOTE_NARI_MASK};
use crate::shogi::mochigoma_points;
use crate::error::{InvalidStateError, str_to_string};

verus! {

proof fn lemma_bits_stay(b: u128, px: u128, py: u128, i: u128)
    by (bit_vector)
    requires
        px < 128,
        py < 128,
        i < 128,
    ensures
        ((b ^ ((1u128 << px) | (1u128 << py))) >> i) & 1u128 == 1u128 ==> ((b >> i) & 1u128 == 1u128 || i == px || i == py),
        ((b | (1u128 << py)) >> i) & 1u128 == 1u128 ==> ((b >> i) & 1u128 == 1u128 || i == py),
        ((b & !(1u128 << py)) >> i) & 1u128 == 1u128 ==> (b >> i) & 1u128 == 1u128,
        ((b & ((1u128 << px) | (1u128 << py))) >> i) & 1u128 == 1u128 ==> (i == px || i == py),
        ((b ^ (1u128 << py)) >> i) & 1u128 == 1u128 ==> ((b >> i) & 1u128 == 1u128 || i == py),
{
}

/// A move on the board keeps every bitboard within the board.
pub proof fn lemma_field_after_within(p: PartialState, b: crate::shogi::Banmen, t: Teban, m: AppliedMove, f: int)
    requires
        within_board(field_board(p, f)),
        move_on_board(m),
        0 <= f < 22,
    ensures
        within_board(field_after_move(p, b, t, m, f)),
{
    let r = field_after_move(p, b, t, m, f);
    match m {
        AppliedMove::To(mt) => {
            let from = mt.src_spec() as int;
            let to = mt.dst_spec() as int;
            let px = bit_pos(f, from);
            let py = bit_pos(f, to);
            assert(1 <= px <= 81 && 1 <= py <= 81);
            let k = square_kind(b, from);
            let c = square_kind(b, to);
            let b0 = field_board(p, f);
            let b1 = if crate::rule::apply::follows_mover(f, k) { b0 ^ (bit_of(f, from) | bit_of(f, to)) } else { b0 };
            let gain = crate::rule::apply::nari_gain(f, k, mt.nari_spec());
            let b2 = if gain { b1 | bit_of(f, to) } else { b1 };
            assert forall|i: int| 0 <= i < 128 && #[trigger] has_bit(r, i) implies 1 <= i <= 81 by {
                lemma_bits_stay(b0, px as u128, py as u128, i as u128);
                lemma_bits_stay(b1, px as u128, py as u128, i as u128);
                lemma_bits_stay(b2, px as u128, py as u128, i as u128);
                if !(i == px || i == py) {
                    assert(has_bit(b2, i));
                    assert(has_bit(b1, i));
                    assert(has_bit(b0, i));
                }
            }
        },
        AppliedMove::Put(mp) => {
            let to = mp.dst_spec() as int;
            let py = bit_pos(f, to);
            assert(1 <= py <= 81);
            let b0 = field_board(p, f);
            assert forall|i: int| 0 <= i < 128 && #[trigger] has_bit(r, i) implies 1 <= i <= 81 by {
                lemma_bits_stay(b0, py as u128, py as u128, i as u128);
                if i != py {
                    assert(has_bit(b0, i));
                }
            }
        },
    }
}

/// The bitboards after side `t` plays `m` on `b`, field by field.
pub open spec fn part_after(p: PartialState, b: crate::shogi::Banmen, t: Teban, m: AppliedMove) -> PartialState {
    PartialState {
        sente_self_board: BitBoard { merged_bitboard: field_after_move(p, b, t, m, 0) },
        sente_opponent_board: BitBoard { merged_bitboard: field_after_move(p, b, t, m, 1) },
        gote_self_board: BitBoard { merged_bitboard: field_after_move(p, b, t, m, 2) },
        gote_opponent_board: BitBoard { merged_bitboard: field_after_move(p, b, t, m, 3) },
        sente_nari_board: BitBoard { merged_bitboard: field_after_move(p, b, t, m, 4) },
        gote_nari_board: BitBoard { merged_bitboard: field_after_move(p, b, t, m, 5) },
        sente_fu_board: BitBoard { merged_bitboard: field_after_move(p, b, t, m, 6) },
        gote_fu_board: BitBoard { merged_bitboard: field_after_move(p, b, t, m, 7) },
        sente_kyou_board: BitBoard { merged_bitboard: field_after_move(p, b, t, m, 8) },
        gote_kyou_board: BitBoard { merged_bitboard: field_after_move(p, b, t, m, 9) },
        sente_kei_board: BitBoard { merged_bitboard: field_after_move(p, b, t, m, 10) },
        gote_kei_board: BitBoard { merged_bitboard: field_after_move(p, b, t, m, 11) },
        sente_gin_board: BitBoard { merged_bitboard: field_after_move(p, b, t, m, 12) },
        gote_gin_board: BitBoard { merged_bitboard: field_after_move(p, b, t, m, 13) },
        sente_kin_board: BitBoard { merged_bitboard: field_after_move(p, b, t, m, 14) },
        gote_kin_board: BitBoard { merged_bitboard: field_after_move(p, b, t, m, 15) },
        sente_kaku_board: BitBoard { merged_bitboard: field_after_move(p, b, t, m, 16) },
        gote_kaku_board: BitBoard { merged_bitboard: field_after_move(p, b, t, m, 17) },
        sente_hisha_board: BitBoard { merged_bitboard: field_after_move(p, b, t, m, 18) },
        gote_hisha_board: BitBoard { merged_bitboard: field_after_move(p, b, t, m, 19) },
        sente_opponent_ou_position_board: BitBoard { merged_bitboard: field_after_move(p, b, t, m, 20) },
        gote_opponent_ou_position_board: BitBoard { merged_bitboard: field_after_move(p, b, t, m, 21) },
    }
}

/// The bitboards after side `t` plays `m` on the consistent `state`, which
/// keep both kings' boards within the board.
fn after_part(state: &State, t: Teban, mc: &MochigomaCollections, m: AppliedMove) -> (r: PartialState)
    requires
        parts_within(state.part_spec()),
        move_on_board(m),
    ensures
        r == part_after(state.part_spec(), state.banmen_spec(), t, m),
        ou_boards_within(r),
{
    let r = Rule::apply_move_to_partial_state_none_check(state, t, mc, m);
    proof {
        let p = state.part_spec();
        let b = state.banmen_spec();
        assert(field_board(r, 0) == field_after_move(p, b, t, m, 0));
        assert(field_board(r, 1) == field_after_move(p, b, t, m, 1));
        assert(field_board(r, 2) == field_after_move(p, b, t, m, 2));
        assert(field_board(r, 3) == field_after_move(p, b, t, m, 3));
        assert(field_board(r, 4) == field_after_move(p, b, t, m, 4));
        assert(field_board(r, 5) == field_after_move(p, b, t, m, 5));
        assert(field_board(r, 6) == field_after_move(p, b, t, m, 6));
        assert(field_board(r, 7) == field_after_move(p, b, t, m, 7));
        assert(field_board(r, 8) == field_after_move(p, b, t, m, 8));
        assert(field_board(r, 9) == field_after_move(p, b, t, m, 9));
        assert(field_board(r, 10) == field_after_move(p, b, t, m, 10));
        assert(field_board(r, 11) == field_after_move(p, b, t, m, 11));
        assert(field_board(r, 12) == field_after_move(p, b, t, m, 12));
        assert(field_board(r, 13) == field_after_move(p, b, t, m, 13));
        assert(field_board(r, 14) == field_after_move(p, b, t, m, 14));
        assert(field_board(r, 15) == field_after_move(p, b, t, m, 15));
        assert(field_board(r, 16) == field_after_move(p, b, t, m, 16));
        assert(field_board(r, 17) == field_after_move(p, b, t, m, 17));
        assert(field_board(r, 18) == field_after_move(p, b, t, m, 18));
        assert(field_board(r, 19) == field_after_move(p, b, t, m, 19));
        assert(field_board(r, 20) == field_after_move(p, b, t, m, 20));
        assert(field_board(r, 21) == field_after_move(p, b, t, m, 21));
        assert(within_board(field_board(p, 20)));
        assert(within_board(field_board(p, 21)));
        lemma_field_after_within(p, b, t, m, 20);
        lemma_field_after_within(p, b, t, m, 21);
    }
    r
}

/// Whether a piece of side `t` on one of the first `n` squares of board `b`,
/// taken as `kind`, takes the opposing king next.
pub open spec fn board_mates(t: Teban, ps: PartialState, b: u128, kind: KomaKind, n: int) -> bool
    decreases n,
{
    if n <= 0 { false } else { board_mates(t, ps, b, kind, n - 1) || (has_bit(b, n) && mate_from_spec(t, ps, (n - 1) as u32, kind)) }
}

/// Whether one of side `t`'s rooks, bishops or unpromoted lances takes the
/// opposing king next (each taken as the unpromoted piece).
pub open spec fn repeat_mate_spec(t: Teban, ps: PartialState) -> bool {
    if t == Teban::Sente {
        board_mates(t, ps, ps.sente_hisha_board.merged_bitboard, KomaKind::SHisha, 81)
        || board_mates(t, ps, ps.sente_kaku_board.merged_bitboard, KomaKind::SKaku, 81)
        || board_mates(t, ps, ps.sente_kyou_board.merged_bitboard & !ps.sente_nari_board.merged_bitboard, KomaKind::SKyou, 81)
    } else {
        board_mates(t, ps, ps.gote_hisha_board.merged_bitboard, KomaKind::GHisha, 81)
        || board_mates(t, ps, ps.gote_kaku_board.merged_bitboard, KomaKind::GKaku, 81)
        || board_mates(t, ps, ps.gote_kyou_board.merged_bitboard & !ps.gote_nari_board.merged_bitboard, KomaKind::GKyou, 81)
    }
}

impl Rule {
    /// Whether a piece of side `t` on board `b`, taken as `kind`, takes the opposing king next.
    fn board_mates_exec(t: Teban, ps: &PartialState, b: u128, kind: KomaKind) -> (r: bool)
        requires
            ou_boards_within(*ps),
        ensures
            r == board_mates(t, *ps, b, kind, 81),
    {
        let mut s: u32 = 0;
        while s < 81
            invariant
                s <= 81,
                ou_boards_within(*ps),
                !board_mates(t, *ps, b, kind, s as int),
            decreases 81 - s,
        {
            if (b >> ((s + 1) as u128)) & 1u128 == 1u128 && Rule::is_mate_with_partial_state_and_from_and_kind(t, ps, s, kind) {
                proof {
                    assert(board_mates(t, *ps, b, kind, s as int + 1));
                    lemma_board_mates_grow(t, *ps, b, kind, s as int + 1, 81);
                }
                return true;
            }
            s = s + 1;
        }
        false
    }

    /// Whether one of side `t`'s rooks, bishops or unpromoted lances takes
    /// the opposing king next.
    pub fn is_mate_with_partial_state_repeat_move_kinds(t: Teban, ps: &PartialState) -> (r: bool)
        requires
            ou_boards_within(*ps),
        ensures
            r == repeat_mate_spec(t, *ps),
    {
        match t {
            Teban::Sente => {
                Rule::board_mates_exec(t, ps, ps.sente_hisha_board.merged_bitboard, KomaKind::SHisha)
                || Rule::board_mates_exec(t, ps, ps.sente_kaku_board.merged_bitboard, KomaKind::SKaku)
                || Rule::board_mates_exec(t, ps, ps.sente_kyou_board.merged_bitboard & !ps.sente_nari_board.merged_bitboard, KomaKind::SKyou)
            },
            Teban::Gote => {
                Rule::board_mates_exec(t, ps, ps.gote_hisha_board.merged_bitboard, KomaKind::GHisha)
                || Rule::board_mates_exec(t, ps, ps.gote_kaku_board.merged_bitboard, KomaKind::GKaku)
                || Rule::board_mates_exec(t, ps, ps.gote_kyou_board.merged_bitboard & !ps.gote_nari_board.merged_bitboard, KomaKind::GKyou)
            },
        }
    }
}

/// Once true over the first `n` squares, true over more.
proof fn lemma_board_mates_grow(t: Teban, ps: PartialState, b: u128, kind: KomaKind, n: int, m: int)
    requires
        n <= m,
        board_mates(t, ps, b, kind, n),
    ensures
        board_mates(t, ps, b, kind, m),
    decreases m - n,
{
    if n < m {
        lemma_board_mates_grow(t, ps, b, kind, n, m - 1);
    }
}

/// The piece a move leaves on its destination (the promoted piece for a
/// promotion, the dropped piece for a drop), and the destination.
pub open spec fn arriving(b: crate::shogi::Banmen, t: Teban, m: AppliedMove) -> (KomaKind, u32) {
    match m {
        AppliedMove::To(mt) => {
            let k = square_kind(b, mt.src_spec() as int);
            (if mt.nari_spec() { nari_of(k) } else { k }, mt.dst_spec())
        },
        AppliedMove::Put(mp) => (kind_of_put(t, mp.kind_spec()), mp.dst_spec()),
    }
}

/// Whether the legal move `m` of side `t` gives check: it lies on the board
/// and, after it, the moved piece or one of the side's rooks, bishops or
/// lances takes the opposing king next.
pub open spec fn oute_pred(t: Teban, state: State, m: LegalMove) -> bool {
    let am = applied_of_legal(m);
    let ps = part_after(state.part_spec(), state.banmen_spec(), t, am);
    let (kind, dst) = arriving(state.banmen_spec(), t, am);
    move_on_board(am) && (mate_from_spec(t, ps, dst, kind) || repeat_mate_spec(t, ps))
}

/// The moves of `ms` that give check, in order.
pub open spec fn oute_keep(t: Teban, state: State, ms: Seq<LegalMove>) -> Seq<LegalMove>
    decreases ms.len(),
{
    if ms.len() == 0 {
        Seq::<LegalMove>::empty()
    } else {
        let rest = oute_keep(t, state, ms.drop_last());
        if oute_pred(t, state, ms.last()) { rest.push(ms.last()) } else { rest }
    }
}

/// Whether the legal move `m` of side `t` answers check: it takes the king,
/// or it lies on the board and after it no piece of the opponent takes
/// side `t`'s king.
pub open spec fn respond_pred(t: Teban, state: State, m: LegalMove) -> bool {
    match m {
        LegalMove::To(mt) if mt.obtained_spec() == Some(ObtainKind::Ou) => true,
        _ => {
            let am = applied_of_legal(m);
            let ps = part_after(state.part_spec(), state.banmen_spec(), t, am);
            move_on_board(am) && !(exists|s: int| 0 <= s < 81
                && #[trigger] mate_from_spec(opposite_of(t), ps, s as u32, kind_seen_after(state.banmen_spec(), opposite_of(t), am, s)))
        },
    }
}

/// The moves of `ms` that answer check, in order.
pub open spec fn respond_keep(t: Teban, state: State, ms: Seq<LegalMove>) -> Seq<LegalMove>
    decreases ms.len(),
{
    if ms.len() == 0 {
        Seq::<LegalMove>::empty()
    } else {
        let rest = respond_keep(t, state, ms.drop_last());
        if respond_pred(t, state, ms.last()) { rest.push(ms.last()) } else { rest }
    }
}

impl Rule {
    /// Whether the legal move `m` of side `t` gives check.
    fn oute_test(t: Teban, state: &State, mc: &MochigomaCollections, m: LegalMove) -> (r: bool)
        requires
            parts_within(state.part_spec()),
        ensures
            r == oute_pred(t, *state, m),
    {
        let am = m.to_applied_move();
        let (kind, dst) = match am {
            AppliedMove::To(mt) => {
                let src = mt.src();
                let dst = mt.dst();
                if src >= 81 || dst >= 81 {
                    return false;
                }
                let k = state.get_banmen().0[(src % 9) as usize][(src / 9) as usize];
                (if mt.is_nari() { k.to_nari() } else { k }, dst)
            },
            AppliedMove::Put(mp) => {
                let dst = mp.dst();
                if dst >= 81 {
                    return false;
                }
                (KomaKind::from_put(t, mp.kind()), dst)
            },
        };
        let ps = after_part(state, t, mc, am);
        Rule::is_mate_with_partial_state_and_from_and_kind(t, &ps, dst, kind)
            || Rule::is_mate_with_partial_state_repeat_move_kinds(t, &ps)
    }

    /// Whether the legal move `m` of side `t` answers check.
    fn respond_test(t: Teban, state: &State, mc: &MochigomaCollections, m: LegalMove) -> (r: bool)
        requires
            parts_within(state.part_spec()),
        ensures
            r == respond_pred(t, *state, m),
    {
        match m {
            LegalMove::To(mt) => {
                if mt.obtained() == Some(ObtainKind::Ou) {
                    return true;
                }
            },
            _ => {},
        }
        let am = m.to_applied_move();
        let on_board = match am {
            AppliedMove::To(mt) => mt.src() < 81 && mt.dst() < 81,
            AppliedMove::Put(mp) => mp.dst() < 81,
        };
        if !on_board {
            return false;
        }
        let ps = after_part(state, t, mc, am);
        !Rule::is_mate_with_partial_state_and_old_banmen_and_opponent_move(t.opposite(), state.get_banmen(), &ps, am)
    }

    /// The moves of `ms` that give check (`oute` true) or answer it (`oute` false).
    fn keep_moves(t: Teban, state: &State, mc: &MochigomaCollections, ms: Vec<LegalMove>, oute: bool) -> (r: Vec<LegalMove>)
        requires
            parts_within(state.part_spec()),
        ensures
            oute ==> r@ == oute_keep(t, *state, ms@),
            !oute ==> r@ == respond_keep(t, *state, ms@),
    {
        let mut out: Vec<LegalMove> = Vec::new();
        let mut i: usize = 0;
        proof {
            assert(ms@.subrange(0, 0) =~= Seq::<LegalMove>::empty());
        }
        while i < ms.len()
            invariant
                i <= ms.len(),
                parts_within(state.part_spec()),
                oute ==> out@ == oute_keep(t, *state, ms@.subrange(0, i as int)),
                !oute ==> out@ == respond_keep(t, *state, ms@.subrange(0, i as int)),
            decreases ms.len() - i,
        {
            let m = ms[i];
            proof {
                assert(ms@.subrange(0, i as int + 1).drop_last() =~= ms@.subrange(0, i as int));
                assert(ms@.subrange(0, i as int + 1).last() == m);
            }
            let keep = if oute { Rule::oute_test(t, state, mc, m) } else { Rule::respond_test(t, state, mc, m) };
            if keep {
                out.push(m);
            }
            i = i + 1;
        }
        proof {
            assert(ms@.subrange(0, ms.len() as int) =~= ms@);
        }
        out
    }

    /// The moves of the piece on column `x`, row `y` of side `t` that take the
    /// opposing king, or, when there are none, those that give check.
    pub fn oute_only_moves_with_point(t: Teban, state: &State, mc: &MochigomaCollections, x: u32, y: u32) -> (r: Vec<LegalMove>)
        requires
            parts_within(state.part_spec()),
            x < 9,
            y < 9,
        ensures
            ({
                let wins = crate::rule::mate::win_point_moves(t, state.part_spec(), (x * 9 + y) as u32,
                    square_kind(state.banmen_spec(), (x * 9 + y) as int));
                if wins.len() > 0 {
                    r@ == wins
                } else {
                    r@ == oute_keep(t, *state, crate::rule::movegen::point_kind_moves(t, *state, (x * 9 + y) as u32,
                        square_kind(state.banmen_spec(), (x * 9 + y) as int)))
                }
            }),
    {
        proof {
            crate::rule::game::lemma_parts_ou_within(state.part_spec());
        }
        let wins = Rule::win_only_moves_with_point(t, state, x, y);
        if wins.len() > 0 {
            return wins;
        }
        let mvs = Rule::legal_moves_with_point(t, state, x, y);
        Rule::keep_moves(t, state, mc, mvs, true)
    }

    /// The moves on the board of side `t` that take the opposing king, or,
    /// when there are none, those that give check.
    pub fn oute_only_moves_from_banmen(t: Teban, state: &State, mc: &MochigomaCollections) -> (r: Vec<LegalMove>)
        requires
            parts_within(state.part_spec()),
        ensures
            win_walk_moves(t, *state, 81).len() > 0 ==> r@ == win_walk_moves(t, *state, 81),
            win_walk_moves(t, *state, 81).len() == 0 ==> r@ == oute_keep(t, *state, banmen_moves(t, *state)),
    {
        proof {
            crate::rule::game::lemma_parts_ou_within(state.part_spec());
        }
        let wins = Rule::win_only_moves(t, state);
        if wins.len() > 0 {
            return wins;
        }
        let mvs = Rule::legal_moves_from_banmen(t, state);
        Rule::keep_moves(t, state, mc, mvs, true)
    }

    /// The drops of side `t` that give check.
    pub fn oute_only_moves_from_mochigoma(t: Teban, mc: &MochigomaCollections, state: &State) -> (r: Vec<LegalMove>)
        requires
            parts_within(state.part_spec()),
        ensures
            r@ == oute_keep(t, *state, mochigoma_moves(t, *state, *mc)),
    {
        let mvs = Rule::legal_moves_from_mochigoma(t, mc, state);
        Rule::keep_moves(t, state, mc, mvs, true)
    }

    /// The moves of side `t` that take the opposing king, or, when there are
    /// none, the moves and drops that give check.
    pub fn oute_only_moves_all(t: Teban, state: &State, mc: &MochigomaCollections) -> (r: Vec<LegalMove>)
        requires
            parts_within(state.part_spec()),
        ensures
            win_walk_moves(t, *state, 81).len() > 0 ==> r@ == win_walk_moves(t, *state, 81),
            win_walk_moves(t, *state, 81).len() == 0 ==>
                r@ == oute_keep(t, *state, banmen_moves(t, *state) + mochigoma_moves(t, *state, *mc)),
    {
        proof {
            crate::rule::game::lemma_parts_ou_within(state.part_spec());
        }
        let wins = Rule::win_only_moves(t, state);
        if wins.len() > 0 {
            return wins;
        }
        let mvs = Rule::legal_moves_all(t, state, mc);
        Rule::keep_moves(t, state, mc, mvs, true)
    }

    /// The moves and drops of side `t` after which the opponent cannot take
    /// its king (and the moves that take the opposing king).
    pub fn respond_oute_only_moves_all(t: Teban, state: &State, mc: &MochigomaCollections) -> (r: Vec<LegalMove>)
        requires
            parts_within(state.part_spec()),
        ensures
            r@ == respond_keep(t, *state, banmen_moves(t, *state) + mochigoma_moves(t, *state, *mc)),
    {
        let mvs = Rule::legal_moves_all(t, state, mc);
        Rule::keep_moves(t, state, mc, mvs, false)
    }

    /// Whether side `t`'s move `m` answers the check it is in: an error when
    /// side `t` is not in check.
    pub fn responded_oute(state: &State, t: Teban, mc: &MochigomaCollections, m: AppliedMove) -> (r: Result<bool, InvalidStateError>)
        requires
            parts_within(state.part_spec()),
            move_on_board(m),
        ensures
            !is_mate_spec(opposite_of(t), *state) ==> (r matches Err(InvalidStateError(msg))
                && msg@ == "The argument m is not Move of oute."@),
            is_mate_spec(opposite_of(t), *state) ==> r == Ok::<bool, InvalidStateError>(!(exists|s: int| 0 <= s < 81
                && #[trigger] mate_from_spec(opposite_of(t), part_after(state.part_spec(), state.banmen_spec(), t, m), s as u32,
                    kind_seen_after(state.banmen_spec(), opposite_of(t), m, s)))),
    {
        let o = t.opposite();
        proof {
            crate::rule::game::lemma_parts_ou_within(state.part_spec());
        }
        if !Rule::is_mate(o, state) {
            return Err(InvalidStateError(str_to_string("The argument m is not Move of oute.")));
        }
        let ps = after_part(state, t, mc, m);
        Ok(!Rule::is_mate_with_partial_state_and_old_banmen_and_opponent_move(o, state.get_banmen(), &ps, m))
    }

    /// Whether the drop `m` of side `teban` is a pawn drop that mates: the
    /// square holds a pawn that takes the king next, and the opponent has no
    /// move that answers it.
    pub fn is_put_fu_and_mate(state: &State, teban: Teban, mc: &MochigomaCollections, m: AppliedMove) -> (r: bool)
        requires
            parts_within(state.part_spec()),
            move_on_board(m),
        ensures
            r == put_fu_mate_spec(*state, teban, *mc, m),
    {
        match m {
            AppliedMove::Put(mp) => {
                let to = mp.dst();
                proof {
                    crate::rule::lemma_point_x(to);
                    crate::rule::apply::lemma_square_split_pub(to as int);
                    crate::rule::game::lemma_parts_ou_within(state.part_spec());
                }
                let kind = state.get_banmen().0[(to % 9) as usize][(to / 9) as usize];
                if kind != KomaKind::SFu && kind != KomaKind::GFu {
                    return false;
                }
                let is_oute = Rule::is_mate_with_partial_state_and_from_and_kind(teban, state.get_part(), to, kind);
                if !is_oute {
                    return false;
                }
                let responses = Rule::respond_oute_only_moves_all(teban.opposite(), state, mc);
                responses.len() == 0
            },
            _ => false,
        }
    }
}

/// Whether side `t` wins by declaration at time `now` (milliseconds) with
/// `limit` the moment its allotted time runs out: the opponent cannot take
/// its king, its time (if limited) has not run out, its king stands in the opposing camp, and it has at
/// least ten pieces there besides the king (rooks and bishops counting five
/// points, the others one) with 28 points for sente, 27 for gote, pieces in
/// hand counting too when the pieces in the camp do not reach them.
pub open spec fn nyugyoku_spec(state: State, t: Teban, mc: MochigomaCollections, limit: Option<u64>, now: u64) -> bool {
    let p = state.part_spec();
    if is_mate_spec(opposite_of(t), state) {
        false
    } else if limit matches Some(l) && l <= now {
        false
    } else if t == Teban::Sente {
        let gou = p.gote_opponent_ou_position_board.merged_bitboard;
        if gou & (NYUGYOKU_MASK << 1u128) == 0 {
            false
        } else {
            let oub = 1u128 << ((82 - crate::rule::movegen::lowest_bit(gou)) as u128);
            let hk = p.sente_hisha_board.merged_bitboard | p.sente_kaku_board.merged_bitboard;
            let occ = p.sente_self_board.merged_bitboard & !(hk | oub) & (SENTE_NARI_MASK << 1u128);
            let big = hk & (SENTE_NARI_MASK << 1u128);
            let count = bits_count(occ, 81) + bits_count(big, 81);
            let point = bits_count(occ, 81) + 5 * bits_count(big, 81);
            let hand = match mc { MochigomaCollections::Pair(ms, _) => mochigoma_points(ms@, 5, 7), MochigomaCollections::Empty => 0 };
            count >= 10 && (point >= 28 || point + hand >= 28)
        }
    } else {
        let sou = p.sente_opponent_ou_position_board.merged_bitboard;
        if sou & (NYUGYOKU_MASK << 1u128) == 0 {
            false
        } else {
            let hk = p.gote_hisha_board.merged_bitboard | p.gote_kaku_board.merged_bitboard;
            let occ = p.sente_opponent_board.merged_bitboard & !(hk | sou) & (GOTE_NARI_MASK << 1u128);
            let big = hk & (GOTE_NARI_MASK << 1u128);
            let count = bits_count(occ, 81) + bits_count(big, 81);
            let point = bits_count(occ, 81) + 5 * bits_count(big, 81);
            let hand = match mc { MochigomaCollections::Pair(_, mg) => mochigoma_points(mg@, 5, 7), MochigomaCollections::Empty => 0 };
            count >= 10 && (point >= 27 || point + hand >= 27)
        }
    }
}

/// Whether `m` is a pawn drop of side `teban` that mates, judged on the
/// position `state` after the drop: the square holds a pawn that takes the
/// king next, and the opponent has no move that answers it.
pub open spec fn put_fu_mate_spec(state: State, teban: Teban, mc: MochigomaCollections, m: AppliedMove) -> bool {
    m matches AppliedMove::Put(mp) && ({
        let to = mp.dst_spec();
        let kind = square_kind(state.banmen_spec(), to as int);
        (kind == KomaKind::SFu || kind == KomaKind::GFu)
            && mate_from_spec(teban, state.part_spec(), to, kind)
            && respond_keep(opposite_of(teban), state,
                banmen_moves(opposite_of(teban), state) + mochigoma_moves(opposite_of(teban), state, mc)).len() == 0
    })
}

impl Rule {
    /// The set bits of `b` among bits 1 to 81.
    fn count_board(b: u128) -> (r: u64)
        ensures
            r == bits_count(b, 81),
            r <= 81,
    {
        let mut c: u64 = 0;
        let mut i: u32 = 1;
        while i <= 81
            invariant
                1 <= i <= 82,
                c == bits_count(b, i - 1),
                c <= i - 1,
            decreases 82 - i,
        {
            if (b >> (i as u128)) & 1u128 == 1u128 {
                c = c + 1;
            }
            i = i + 1;
        }
        c
    }

    /// Whether side `t` wins by declaration at time `now` (milliseconds),
    /// `limit` being the moment its allotted time runs out.
    pub fn is_nyugyoku_win(state: &State, t: Teban, mc: &MochigomaCollections, limit: &Option<u64>, now: u64) -> (r: bool)
        requires
            parts_within(state.part_spec()),
        ensures
            r == nyugyoku_spec(*state, t, *mc, *limit, now),
    {
        proof {
            crate::rule::game::lemma_parts_ou_within(state.part_spec());
        }
        if Rule::is_mate(t.opposite(), state) {
            return false;
        }
        match limit {
            Some(l) => {
                if *l <= now {
                    return false;
                }
            },
            None => {},
        }
        let p = state.get_part();
        match t {
            Teban::Sente => {
                let gou = p.gote_opponent_ou_position_board.merged_bitboard;
                if gou & (NYUGYOKU_MASK << 1u128) == 0 {
                    return false;
                }
                let mut ob = BitBoard { merged_bitboard: gou };
                let pos = Rule::pop_lsb(&mut ob);
                proof {
                    crate::rule::game::lemma_parts_ou_within(state.part_spec());
                    assert(gou != 0) by {
                        if gou == 0 {
                            assert(gou & (NYUGYOKU_MASK << 1u128) == 0) by (bit_vector) requires gou == 0;
                        }
                    }
                    crate::bitboard::lemma_lowest_exists(gou);
                    assert(has_bit(gou, crate::rule::movegen::lowest_bit(gou)));
                }
                let oub: u128 = 1u128 << ((80 - pos + 1) as u128);
                let hk = p.sente_hisha_board.merged_bitboard | p.sente_kaku_board.merged_bitboard;
                let occ = p.sente_self_board.merged_bitboard & !(hk | oub) & (SENTE_NARI_MASK << 1u128);
                let big = hk & (SENTE_NARI_MASK << 1u128);
                let a = Rule::count_board(occ);
                let b = Rule::count_board(big);
                let count = a + b;
                let point = a + 5 * b;
                if count < 10 {
                    return false;
                } else if point >= 28 {
                    return true;
                }
                let hand: u64 = match mc {
                    MochigomaCollections::Pair(ms, _) => ms.weighted_count(5),
                    MochigomaCollections::Empty => 0,
                };
                proof {
                    match mc {
                        MochigomaCollections::Pair(ms, _) => lemma_points_bounded(ms@, 7),
                        MochigomaCollections::Empty => {},
                    }
                }
                point + hand >= 28
            },
            Teban::Gote => {
                let sou = p.sente_opponent_ou_position_board.merged_bitboard;
                if sou & (NYUGYOKU_MASK << 1u128) == 0 {
                    return false;
                }
                let hk = p.gote_hisha_board.merged_bitboard | p.gote_kaku_board.merged_bitboard;
                let occ = p.sente_opponent_board.merged_bitboard & !(hk | sou) & (GOTE_NARI_MASK << 1u128);
                let big = hk & (GOTE_NARI_MASK << 1u128);
                let a = Rule::count_board(occ);
                let b = Rule::count_board(big);
                let count = a + b;
                let point = a + 5 * b;
                if count < 10 {
                    return false;
                } else if point >= 27 {
                    return true;
                }
                let hand: u64 = match mc {
                    MochigomaCollections::Pair(_, mg) => mg.weighted_count(5),
                    MochigomaCollections::Empty => 0,
                };
                proof {
                    match mc {
                        MochigomaCollections::Pair(_, mg) => lemma_points_bounded(mg@, 7),
                        MochigomaCollections::Empty => {},
                    }
                }
                point + hand >= 27
            },
        }
    }
}

/// The points of a hand stay within what seven counts can reach.
proof fn lemma_points_bounded(s: Seq<u32>, n: nat)
    requires
        n <= 7,
    ensures
        0 <= mochigoma_points(s, 5, n) <= n * 5 * u32::MAX,
    decreases n,
{
    if n > 0 {
        lemma_points_bounded(s, (n - 1) as nat);
        let v = s[n - 1] as int;
        assert(0 <= v <= u32::MAX);
        if n - 1 == 5 || n - 1 == 6 {
            assert(v * 5 <= 5 * u32::MAX) by (nonlinear_arith) requires 0 <= v <= u32::MAX;
            assert(v * 5 >= 0) by (nonlinear_arith) requires 0 <= v;
        }
    }
}

} // verus!
