//! Rules over a game: wins, repetition, promotion zones, time.
use vstd::prelude::*;
use crate::bitboard::{BitBoard, has_bit};
use crate::shogi::{KomaKind, Teban, Mochigoma, MochigomaKind, MochigomaCollections, kind_index, opposite_of};
use crate::rule::{Rule, Square, AppliedMove};
use crate::rule::masks::{SENTE_NARI_MASK, GOTE_NARI_MASK};
use crate::rule::state::{State, PartialState, part_consistent, field_board};
use crate::rule::movegen::{within_board, lowest_bit};
use crate::rule::apply::{move_on_board, field_after_move, lemma_and_bit};
use crate::rule::mate::{is_mate_spec, mate_from_spec, kind_seen_after, ou_boards_within};
use crate::rule::validity::{on_mask, valid_nari_mask};
use crate::hash::KyokumenMap;
use crate::event::{UsiGoTimeLimit, UsiGoByoyomiOrInc};
use crate::error::{InvalidStateError, str_to_string};

verus! {

/// A state whose bitboards match its board keeps both kings' boards within the board.
/// Bitboards within the board keep both kings' boards within it.
pub proof fn lemma_parts_ou_within(p: crate::rule::state::PartialState)
    requires
        crate::rule::oute::parts_within(p),
    ensures
        ou_boards_within(p),
{
    assert(field_board(p, 20) == p.sente_opponent_ou_position_board.merged_bitboard);
    assert(field_board(p, 21) == p.gote_opponent_ou_position_board.merged_bitboard);
    assert(within_board(field_board(p, 20)));
    assert(within_board(field_board(p, 21)));
}

pub proof fn lemma_wf_ou_within(state: State)
    requires
        state.wf(),
    ensures
        ou_boards_within(state.part_spec()),
{
    let p = state.part_spec();
    assert forall|i: int| 0 <= i < 128 && #[trigger] has_bit(p.sente_opponent_ou_position_board.merged_bitboard, i) implies 1 <= i <= 81 by {
        assert(field_board(p, 20) == p.sente_opponent_ou_position_board.merged_bitboard);
        if i == 0 || i > 81 {
            assert(!has_bit(field_board(p, 20), i));
        }
    }
    assert forall|i: int| 0 <= i < 128 && #[trigger] has_bit(p.gote_opponent_ou_position_board.merged_bitboard, i) implies 1 <= i <= 81 by {
        assert(field_board(p, 21) == p.gote_opponent_ou_position_board.merged_bitboard);
        if i == 0 || i > 81 {
            assert(!has_bit(field_board(p, 21), i));
        }
    }
}

/// Whether a piece of `kind` may promote moving between `from` and `to`:
/// it is a kind that promotes, and one of the squares lies in its side's promotion zone.
pub open spec fn possible_nari_spec(kind: KomaKind, from: Square, to: Square) -> bool {
    let m = valid_nari_mask(kind_index(kind));
    on_mask(m, to as int) || on_mask(m, from as int)
}

/// Whether the move `m` of side `teban` takes the opposing king.
pub open spec fn is_win_spec(state: State, teban: Teban, m: AppliedMove) -> bool {
    match m {
        AppliedMove::To(mt) => if teban == Teban::Sente {
            has_bit(state.part_spec().sente_opponent_ou_position_board.merged_bitboard, mt.dst_spec() + 1)
        } else {
            has_bit(state.part_spec().gote_opponent_ou_position_board.merged_bitboard, 81 - mt.dst_spec())
        },
        AppliedMove::Put(_) => false,
    }
}

/// The square of side `teban`'s king as its board shows it (-1 without one).
pub open spec fn ou_square_spec(teban: Teban, state: State) -> int {
    if teban == Teban::Sente {
        let b = state.part_spec().gote_opponent_ou_position_board.merged_bitboard;
        if b == 0 { -1 } else { 80 - (lowest_bit(b) - 1) }
    } else {
        let b = state.part_spec().sente_opponent_ou_position_board.merged_bitboard;
        if b == 0 { -1 } else { lowest_bit(b) - 1 }
    }
}

/// The repetition count recorded for a position (0 when none is).
pub open spec fn count_of(m: Map<(u64, u64), u32>, mhash: u64, shash: u64) -> u32 {
    if m.contains_key((mhash, shash)) { m[(mhash, shash)] } else { 0 }
}

/// The counts of one side after the position `(mhash, shash)` was counted `n`
/// more times by `update_sennichite_map`, starting from `m`.
pub open spec fn counts_after(m: Map<(u64, u64), u32>, mhash: u64, shash: u64, n: nat) -> Map<(u64, u64), u32>
    decreases n,
{
    if n == 0 {
        m
    } else {
        let p = counts_after(m, mhash, shash, (n - 1) as nat);
        p.insert((mhash, shash), (count_of(p, mhash, shash) + 1) as u32)
    }
}

/// A position counted `n` times from no counts has the count `n`, so that
/// `is_sennichite` holds of it exactly from the third time on; no other
/// position is counted.
pub proof fn law_sennichite_after_repeats(mhash: u64, shash: u64, n: nat)
    requires
        n <= u32::MAX,
    ensures
        count_of(counts_after(Map::empty(), mhash, shash, n), mhash, shash) == n,
        (count_of(counts_after(Map::empty(), mhash, shash, n), mhash, shash) >= 3) <==> n >= 3,
        forall|a: u64, b: u64| (a, b) != (mhash, shash) ==> #[trigger] count_of(counts_after(Map::empty(), mhash, shash, n), a, b) == 0,
    decreases n,
{
    if n > 0 {
        law_sennichite_after_repeats(mhash, shash, (n - 1) as nat);
        let p = counts_after(Map::empty(), mhash, shash, (n - 1) as nat);
        assert forall|a: u64, b: u64| (a, b) != (mhash, shash) implies #[trigger] count_of(
            counts_after(Map::empty(), mhash, shash, n), a, b) == 0 by {
            assert(count_of(p, a, b) == 0);
        }
    }
}

/// The remaining time of one side after it used `diff` milliseconds: the time
/// left plus its increment while time is left, 0 once it ran out.
pub open spec fn rest_after(l: u32, diff: u32, inc: Option<u32>) -> u32 {
    if l >= diff {
        (l - diff + match inc { Some(i) => i as int, None => 0 }) as u32
    } else {
        0
    }
}

/// The increment of side `teban`, if the limit gives increments.
pub open spec fn inc_of(b: Option<UsiGoByoyomiOrInc>, teban: Teban) -> Option<u32> {
    match b {
        Some(UsiGoByoyomiOrInc::Inc(s, g)) => Some(if teban == Teban::Sente { s } else { g }),
        _ => None,
    }
}

impl Rule {
    /// Whether a piece of `kind` may promote moving from `from` to `to`.
    pub fn is_possible_nari(kind: KomaKind, from: Square, to: Square) -> (r: bool)
        requires
            0 <= from < 128,
            0 <= to < 128,
        ensures
            r == possible_nari_spec(kind, from, to),
    {
        let i = kind.to_index();
        let nari_mask: u128 = if i == 0 || i == 1 || i == 2 || i == 3 || i == 5 || i == 6 {
            SENTE_NARI_MASK
        } else if i == 14 || i == 15 || i == 16 || i == 17 || i == 19 || i == 20 {
            GOTE_NARI_MASK
        } else {
            0
        };
        (nari_mask & (1u128 << (to as u128))) != 0 || (nari_mask & (1u128 << (from as u128))) != 0
    }

    /// Whether the move `m` of side `teban` takes the opposing king.
    pub fn is_win(state: &State, teban: Teban, m: AppliedMove) -> (r: bool)
        requires
            m is To ==> m->To_0.dst_spec() <= 80,
        ensures
            r == is_win_spec(*state, teban, m),
    {
        match m {
            AppliedMove::To(mt) => {
                let to = mt.dst();
                match teban {
                    Teban::Sente => {
                        let bitboard = state.get_part().sente_opponent_ou_position_board.merged_bitboard;
                        proof {
                            lemma_and_bit(bitboard, (to + 1) as u128);
                        }
                        (bitboard & (1u128 << ((to + 1) as u128))) != 0
                    },
                    Teban::Gote => {
                        let bitboard = state.get_part().gote_opponent_ou_position_board.merged_bitboard;
                        proof {
                            lemma_and_bit(bitboard, (80 - to + 1) as u128);
                        }
                        (bitboard & (1u128 << ((80 - to + 1) as u128))) != 0
                    },
                }
            },
            AppliedMove::Put(_) => false,
        }
    }

    /// The square of side `teban`'s king, or -1 when its board is empty.
    pub fn ou_square(teban: Teban, state: &State) -> (r: Square)
        ensures
            r == ou_square_spec(teban, *state),
    {
        match teban {
            Teban::Sente => {
                let mut b = state.get_part().gote_opponent_ou_position_board;
                let empty = b.merged_bitboard == 0;
                let p = Rule::pop_lsb(&mut b);
                if empty {
                    -1
                } else {
                    80 - p
                }
            },
            Teban::Gote => {
                let mut b = state.get_part().sente_opponent_ou_position_board;
                let p = Rule::pop_lsb(&mut b);
                p
            },
        }
    }

    /// Counts one more occurrence of the position (`mhash`, `shash`) with `teban` to move.
    pub fn update_sennichite_map(_state: &State, teban: Teban, mhash: u64, shash: u64, kyokumen_map: &mut KyokumenMap<u32>)
        requires
            old(kyokumen_map).wf(),
            count_of(old(kyokumen_map).view_of_side(teban), mhash, shash) < u32::MAX,
        ensures
            final(kyokumen_map).wf(),
            final(kyokumen_map).view_of_side(teban) == old(kyokumen_map).view_of_side(teban).insert(
                (mhash, shash), (count_of(old(kyokumen_map).view_of_side(teban), mhash, shash) + 1) as u32),
            final(kyokumen_map).view_of_side(opposite_of(teban)) == old(kyokumen_map).view_of_side(opposite_of(teban)),
    {
        let c = match kyokumen_map.get(teban, &mhash, &shash) {
            Some(c) => *c,
            None => 0,
        };
        kyokumen_map.insert(teban, mhash, shash, c + 1);
    }

    /// Whether the position (`mhash`, `shash`) with `teban` to move has occurred three times or more.
    pub fn is_sennichite(_state: &State, teban: Teban, mhash: u64, shash: u64, kyokumen_map: &KyokumenMap<u32>) -> (r: bool)
        requires
            kyokumen_map.wf(),
        ensures
            r == (count_of(kyokumen_map.view_of_side(teban), mhash, shash) >= 3),
    {
        match kyokumen_map.get(teban, &mhash, &shash) {
            Some(c) => *c >= 3,
            None => false,
        }
    }

    /// While side `teban` keeps checking, counts one more occurrence of the
    /// position; once it does not, forgets the positions it checked in.
    pub fn update_sennichite_by_oute_map(state: &State, teban: Teban, mhash: u64, shash: u64, oute_kyokumen_map: &mut KyokumenMap<u32>)
        requires
            ou_boards_within(state.part_spec()),
            old(oute_kyokumen_map).wf(),
            count_of(old(oute_kyokumen_map).view_of_side(teban), mhash, shash) < u32::MAX,
        ensures
            final(oute_kyokumen_map).wf(),
            is_mate_spec(teban, *state) ==> final(oute_kyokumen_map).view_of_side(teban)
                == old(oute_kyokumen_map).view_of_side(teban).insert(
                    (mhash, shash), (count_of(old(oute_kyokumen_map).view_of_side(teban), mhash, shash) + 1) as u32),
            !is_mate_spec(teban, *state) ==> final(oute_kyokumen_map).view_of_side(teban) == Map::<(u64, u64), u32>::empty(),
            final(oute_kyokumen_map).view_of_side(opposite_of(teban)) == old(oute_kyokumen_map).view_of_side(opposite_of(teban)),
    {
        if Rule::is_mate(teban, state) {
            let count = match oute_kyokumen_map.get(teban, &mhash, &shash) {
                Some(c) => *c,
                None => 0,
            };
            oute_kyokumen_map.insert(teban, mhash, shash, count + 1);
        } else {
            oute_kyokumen_map.clear(teban);
        }
    }

    /// Whether side `teban` checks and has checked in this position before.
    pub fn is_sennichite_by_oute(state: &State, teban: Teban, mhash: u64, shash: u64, oute_kyokumen_map: &KyokumenMap<u32>) -> (r: bool)
        requires
            ou_boards_within(state.part_spec()),
            oute_kyokumen_map.wf(),
        ensures
            r == (is_mate_spec(teban, *state) && count_of(oute_kyokumen_map.view_of_side(teban), mhash, shash) > 0),
    {
        if Rule::is_mate(teban, state) {
            let count = match oute_kyokumen_map.get(teban, &mhash, &shash) {
                Some(c) => *c,
                None => 0,
            };
            count > 0
        } else {
            false
        }
    }

    /// The time limit after side `teban` used `diff` milliseconds: its time
    /// left is reduced (plus its increment), down to 0 once it runs out.
    pub fn update_time_limit(limit: &UsiGoTimeLimit, teban: Teban, diff: u32) -> (r: UsiGoTimeLimit)
        requires
            *limit matches UsiGoTimeLimit::Limit(Some((ls, lg)), b) ==> {
                let l = if teban == Teban::Sente { ls } else { lg };
                l >= diff ==> l - diff + (match inc_of(b, teban) { Some(i) => i as int, None => 0 }) <= u32::MAX
            },
        ensures
            r == (match *limit {
                UsiGoTimeLimit::Limit(Some((ls, lg)), b) => if teban == Teban::Sente {
                    UsiGoTimeLimit::Limit(Some((rest_after(ls, diff, inc_of(b, teban)), lg)), b)
                } else {
                    UsiGoTimeLimit::Limit(Some((ls, rest_after(lg, diff, inc_of(b, teban)))), b)
                },
                _ => *limit,
            }),
    {
        match limit {
            UsiGoTimeLimit::Limit(Some((ls, lg)), byoyomi_of_inc) => {
                let l = match teban {
                    Teban::Sente => *ls,
                    Teban::Gote => *lg,
                };
                let inc: u32 = match byoyomi_of_inc {
                    Some(UsiGoByoyomiOrInc::Inc(is, ig)) => {
                        let i = match teban {
                            Teban::Sente => *is,
                            Teban::Gote => *ig,
                        };
                        i
                    },
                    _ => 0,
                };
                let nl = if l >= diff { l - diff + inc } else { 0 };
                match teban {
                    Teban::Sente => UsiGoTimeLimit::Limit(Some((nl, *lg)), *byoyomi_of_inc),
                    Teban::Gote => UsiGoTimeLimit::Limit(Some((*ls, nl)), *byoyomi_of_inc),
                }
            },
            _ => *limit,
        }
    }

    /// A full set of pieces in hand for one side, as the protocol lists them:
    /// nine pawns, two each of lances, knights, silvers and golds, one bishop and one rook.
    pub fn filled_mochigoma_hashmap() -> (r: Mochigoma)
        ensures
            r@ == seq![9u32, 2, 2, 2, 2, 1, 1],
    {
        let mut m = Mochigoma::new();
        m.insert(MochigomaKind::Fu, 9);
        m.insert(MochigomaKind::Kyou, 2);
        m.insert(MochigomaKind::Kei, 2);
        m.insert(MochigomaKind::Gin, 2);
        m.insert(MochigomaKind::Kin, 2);
        m.insert(MochigomaKind::Kaku, 1);
        m.insert(MochigomaKind::Hisha, 1);
        proof {
            assert(m@ =~= seq![9u32, 2, 2, 2, 2, 1, 1]);
        }
        m
    }
}

} // verus!
