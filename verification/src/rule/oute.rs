//! Checks: whether a move gives check.
use vstd::prelude::*;
use crate::bitboard::{BitBoard, has_bit};
use crate::shogi::{KomaKind, Teban, MochigomaKind, kind_of_put, kind_index, banmen_at, Banmen};
use crate::rule::{Rule, LegalMove};
use crate::rule::state::{State, field_board, square_kind};
use crate::rule::movegen::{candidate_board, kaku_rt_bits, kaku_rb_bits, hisha_top_bits, hisha_right_bits, within_board,
    lowest_bit, clear_lowest, lemma_clear_lowest};

verus! {

/// A state whose bitboards match its board keeps every bitboard within the board.
pub proof fn lemma_wf_within(state: State, f: int)
    requires
        state.wf(),
        0 <= f < 22,
    ensures
        within_board(field_board(state.part_spec(), f)),
{
    let p = state.part_spec();
    assert forall|i: int| 0 <= i < 128 && #[trigger] has_bit(field_board(p, f), i) implies 1 <= i <= 81 by {
        if i == 0 || i > 81 {
            assert(!has_bit(field_board(p, f), i));
        }
    }
}

/// Every bitboard of `p` stays within the board.
pub open spec fn parts_within(p: crate::rule::state::PartialState) -> bool {
    forall|f: int| 0 <= f < 22 ==> within_board(#[trigger] field_board(p, f))
}

/// A state whose bitboards match its board keeps all of them within the board.
pub proof fn lemma_wf_parts_within(state: State)
    requires
        state.wf(),
    ensures
        parts_within(state.part_spec()),
{
    assert forall|f: int| 0 <= f < 22 implies within_board(#[trigger] field_board(state.part_spec(), f)) by {
        lemma_wf_within(state, f);
    }
}

proof fn lemma_mask_bits(a: u128, c: u128, f: u128, d: u128, i: u128)
    by (bit_vector)
    requires
        f < 127,
        d < 127,
        i < 128,
    ensures
        ((a & !c) >> i) & 1u128 == 1u128 ==> (a >> i) & 1u128 == 1u128,
        ((((a & !(2u128 << f)) | (2u128 << d)) >> i) & 1u128 == 1u128) ==> ((a >> i) & 1u128 == 1u128 || i == d + 1),
{
}

/// Clearing bits keeps a board within the board.
proof fn lemma_within_masked(a: u128, c: u128)
    requires
        within_board(a),
    ensures
        within_board(a & !c),
{
    assert forall|i: int| 0 <= i < 128 && #[trigger] has_bit(a & !c, i) implies 1 <= i <= 81 by {
        lemma_mask_bits(a, c, 0, 0, i as u128);
        assert(has_bit(a, i));
    }
}

/// Moving a bit to a square of the board keeps a board within the board.
proof fn lemma_within_moved(a: u128, f: u128, d: u128)
    requires
        within_board(a),
        f < 127,
        d < 81,
    ensures
        within_board((a & !(2u128 << f)) | (2u128 << d)),
{
    assert forall|i: int| 0 <= i < 128 && #[trigger] has_bit((a & !(2u128 << f)) | (2u128 << d), i) implies 1 <= i <= 81 by {
        lemma_mask_bits(a, 0, f, d, i as u128);
        if i != d + 1 {
            assert(has_bit(a, i));
        }
    }
}

/// The lowest bit of a non-empty board within the board stands for a square.
proof fn lemma_lowest_on_board(b: u128)
    requires
        within_board(b),
        b != 0,
    ensures
        1 <= lowest_bit(b) <= 81,
{
    crate::bitboard::lemma_lowest_exists(b);
    assert(has_bit(b, lowest_bit(b)));
}

/// Square `s` as side `t` sees it (turned around for gote).
pub open spec fn conv(t: Teban, s: int) -> int {
    if t == Teban::Sente { s } else { 80 - s }
}

/// The king's bit turned around: bit `81 - s` for the king on square `s`.
pub open spec fn king_flip(ou: u128) -> u128 {
    2u128 << ((81 - lowest_bit(ou)) as u128)
}

/// What a bishop on `q` (seen from the checking side) says of check: its
/// lines reach the king (`Some(true)`), there is no king (`Some(false)`),
/// or nothing is decided yet.
pub open spec fn kaku_hit(sb: u128, ob: u128, fsb: u128, fob: u128, ou: u128, q: int) -> Option<bool> {
    if ((kaku_rb_bits(sb, ob, sb, q) | kaku_rt_bits(sb, ob, sb, q)) & ou) != 0 {
        Some(true)
    } else if ou == 0 {
        Some(false)
    } else if ((kaku_rb_bits(fsb, fob, fsb, 80 - q) | kaku_rt_bits(fsb, fob, fsb, 80 - q)) & king_flip(ou)) != 0 {
        Some(true)
    } else {
        None
    }
}

/// What a rook on `q` says of check (see `kaku_hit`).
pub open spec fn hisha_hit(sb: u128, ob: u128, fsb: u128, fob: u128, ou: u128, q: int) -> Option<bool> {
    if ou == 0 {
        Some(false)
    } else if ((hisha_top_bits(fsb, fob, fsb, 80 - q) | hisha_right_bits(fsb, fob, fsb, 80 - q)) & king_flip(ou)) != 0 {
        Some(true)
    } else if ((hisha_top_bits(sb, ob, sb, q) | hisha_right_bits(sb, ob, sb, q)) & ou) != 0 {
        Some(true)
    } else {
        None
    }
}

/// What a lance on `q` says of check (see `kaku_hit`).
pub open spec fn kyou_hit(fsb: u128, fob: u128, ou: u128, q: int) -> Option<bool> {
    if ou == 0 {
        Some(false)
    } else if (hisha_top_bits(fsb, fob, fsb, 80 - q) & king_flip(ou)) != 0 {
        Some(true)
    } else {
        None
    }
}

/// Going through the pieces of board `b` from the lowest bit up, as bishops
/// (`which` 0), rooks (1) or lances (2), until one decides.
pub open spec fn slider_scan(which: int, t: Teban, b: u128, sb: u128, ob: u128, fsb: u128, fob: u128, ou: u128) -> Option<bool>
    decreases b,
{
    if b == 0 {
        None
    } else {
        proof {
            lemma_clear_lowest(b, 0);
        }
        let q = conv(t, lowest_bit(b) - 1);
        let h = if which == 0 {
            kaku_hit(sb, ob, fsb, fob, ou, q)
        } else if which == 1 {
            hisha_hit(sb, ob, fsb, fob, ou, q)
        } else {
            kyou_hit(fsb, fob, ou, q)
        };
        match h {
            Some(v) => Some(v),
            None => slider_scan(which, t, clear_lowest(b), sb, ob, fsb, fob, ou),
        }
    }
}

/// The boards the check test of side `t` reads: own and opponent pieces,
/// the same turned around, bishops, rooks, unpromoted lances and the king to take.
pub open spec fn oute_boards(state: State, t: Teban) -> (u128, u128, u128, u128, u128, u128, u128, u128) {
    let p = state.part_spec();
    if t == Teban::Sente {
        (p.sente_self_board.merged_bitboard, p.sente_opponent_board.merged_bitboard,
         p.gote_opponent_board.merged_bitboard, p.gote_self_board.merged_bitboard,
         p.sente_kaku_board.merged_bitboard, p.sente_hisha_board.merged_bitboard,
         p.sente_kyou_board.merged_bitboard & !p.sente_nari_board.merged_bitboard,
         p.sente_opponent_ou_position_board.merged_bitboard)
    } else {
        (p.gote_self_board.merged_bitboard, p.gote_opponent_board.merged_bitboard,
         p.sente_opponent_board.merged_bitboard, p.sente_self_board.merged_bitboard,
         p.gote_kaku_board.merged_bitboard, p.gote_hisha_board.merged_bitboard,
         p.gote_kyou_board.merged_bitboard & !p.gote_nari_board.merged_bitboard,
         p.gote_opponent_ou_position_board.merged_bitboard)
    }
}

/// A board with the piece on `from` moved to `to`.
pub open spec fn moved_board(b: u128, from: u32, to: u32) -> u128 {
    (b & !(2u128 << from)) | (2u128 << to)
}

/// Whether the move `m` of side `t` gives check, as the test decides it: the
/// moved or dropped piece reaches the king, or, for a move, a bishop, rook or
/// lance does once the piece has left its origin; for a drop of one of
/// these, its own lines reach the king.
pub open spec fn oute_spec(state: State, t: Teban, m: LegalMove) -> bool {
    let (sb, ob, fsb, fob, kaku, hisha, kyou, ou) = oute_boards(state, t);
    match m {
        LegalMove::To(mt) => {
            let from = mt.src_spec();
            let dst = mt.dst_spec();
            let kind = square_kind(state.banmen_spec(), from as int);
            let i = kind_index(kind);
            if (ou & candidate_board(t, sb, dst, kind)) != 0 {
                true
            } else {
                let kb = if i == 5 || i == 12 || i == 19 || i == 26 { moved_board(kaku, from, dst) } else { kaku };
                let hb = if i == 6 || i == 13 || i == 20 || i == 27 { moved_board(hisha, from, dst) } else { hisha };
                let yb = if i == 1 || i == 15 { moved_board(kyou, from, dst) } else { kyou };
                let f = conv(t, from as int);
                let sb2 = sb & !(2u128 << (f as u128));
                let fsb2 = fsb & !(2u128 << ((80 - f) as u128));
                match slider_scan(0, t, kb, sb2, ob, fsb2, fob, ou) {
                    Some(v) => v,
                    None => match slider_scan(1, t, hb, sb2, ob, fsb2, fob, ou) {
                        Some(v) => v,
                        None => match slider_scan(2, t, yb, sb2, ob, fsb2, fob, ou) {
                            Some(v) => v,
                            None => false,
                        },
                    },
                }
            }
        },
        LegalMove::Put(mp) => {
            let dst = mp.dst_spec();
            let k = mp.kind_spec();
            if (ou & candidate_board(t, sb, dst, kind_of_put(t, k))) != 0 {
                true
            } else {
                let f = conv(t, dst as int);
                match k {
                    MochigomaKind::Hisha => hisha_hit(sb, ob, fsb, fob, ou, f) == Some(true),
                    MochigomaKind::Kaku => kaku_hit(sb, ob, fsb, fob, ou, f) == Some(true),
                    MochigomaKind::Kyou => kyou_hit(fsb, fob, ou, f) == Some(true),
                    _ => false,
                }
            }
        },
    }
}

/// Every square a legal move names lies on the board.
pub open spec fn legal_on_board(m: LegalMove) -> bool {
    match m {
        LegalMove::To(mt) => mt.src_spec() < 81 && mt.dst_spec() < 81,
        LegalMove::Put(mp) => mp.dst_spec() < 81,
    }
}

impl Rule {
    /// Where the king stands turned around, as a bit, or `None` without a king.
    fn king_flip_exec(ou: u128) -> (r: Option<u128>)
        requires
            within_board(ou),
        ensures
            ou == 0 ==> r is None,
            ou != 0 ==> r == Some(king_flip(ou)),
    {
        let mut b = BitBoard { merged_bitboard: ou };
        let p = Rule::pop_lsb(&mut b);
        proof {
            if ou != 0 {
                lemma_lowest_on_board(ou);
            }
        }
        if p == -1 {
            return None;
        }
        proof {
            lemma_lowest_on_board(ou);
        }
        Some(2u128 << ((80 - p) as u128))
    }

    fn kaku_hit_exec(sb: u128, ob: u128, fsb: u128, fob: u128, ou: u128, q: u32) -> (r: Option<bool>)
        requires
            q < 81,
            within_board(ou),
        ensures
            r == kaku_hit(sb, ob, fsb, fob, ou, q as int),
    {
        let b1 = Rule::gen_candidate_bits_by_kaku_to_right_bottom(BitBoard { merged_bitboard: sb }, BitBoard { merged_bitboard: ob }, q).merged_bitboard
            | Rule::gen_candidate_bits_by_kaku_to_right_top(BitBoard { merged_bitboard: sb }, BitBoard { merged_bitboard: ob }, q).merged_bitboard;
        if b1 & ou != 0 {
            return Some(true);
        }
        let flip = match Rule::king_flip_exec(ou) {
            Some(f) => f,
            None => { return Some(false); },
        };
        let b2 = Rule::gen_candidate_bits_by_kaku_to_right_bottom(BitBoard { merged_bitboard: fsb }, BitBoard { merged_bitboard: fob }, 80 - q).merged_bitboard
            | Rule::gen_candidate_bits_by_kaku_to_right_top(BitBoard { merged_bitboard: fsb }, BitBoard { merged_bitboard: fob }, 80 - q).merged_bitboard;
        if b2 & flip != 0 { Some(true) } else { None }
    }

    fn hisha_hit_exec(sb: u128, ob: u128, fsb: u128, fob: u128, ou: u128, q: u32) -> (r: Option<bool>)
        requires
            q < 81,
            within_board(ou),
        ensures
            r == hisha_hit(sb, ob, fsb, fob, ou, q as int),
    {
        let flip = match Rule::king_flip_exec(ou) {
            Some(f) => f,
            None => { return Some(false); },
        };
        let b1 = Rule::gen_candidate_bits_by_hisha_or_kyou_to_top(BitBoard { merged_bitboard: fsb }, BitBoard { merged_bitboard: fob }, 80 - q).merged_bitboard
            | Rule::gen_candidate_bits_by_hisha_to_right(BitBoard { merged_bitboard: fsb }, BitBoard { merged_bitboard: fob }, 80 - q).merged_bitboard;
        if b1 & flip != 0 {
            return Some(true);
        }
        let b2 = Rule::gen_candidate_bits_by_hisha_or_kyou_to_top(BitBoard { merged_bitboard: sb }, BitBoard { merged_bitboard: ob }, q).merged_bitboard
            | Rule::gen_candidate_bits_by_hisha_to_right(BitBoard { merged_bitboard: sb }, BitBoard { merged_bitboard: ob }, q).merged_bitboard;
        if b2 & ou != 0 { Some(true) } else { None }
    }

    fn kyou_hit_exec(fsb: u128, fob: u128, ou: u128, q: u32) -> (r: Option<bool>)
        requires
            q < 81,
            within_board(ou),
        ensures
            r == kyou_hit(fsb, fob, ou, q as int),
    {
        let flip = match Rule::king_flip_exec(ou) {
            Some(f) => f,
            None => { return Some(false); },
        };
        let b = Rule::gen_candidate_bits_by_hisha_or_kyou_to_top(BitBoard { merged_bitboard: fsb }, BitBoard { merged_bitboard: fob }, 80 - q).merged_bitboard;
        if b & flip != 0 { Some(true) } else { None }
    }

    /// Goes through the pieces of `b` from the lowest bit up until one decides.
    fn slider_scan_exec(which: u8, t: Teban, b: u128, sb: u128, ob: u128, fsb: u128, fob: u128, ou: u128) -> (r: Option<bool>)
        requires
            within_board(b),
            within_board(ou),
        ensures
            r == slider_scan(which as int, t, b, sb, ob, fsb, fob, ou),
    {
        let mut bb = BitBoard { merged_bitboard: b };
        loop
            invariant
                within_board(bb.merged_bitboard),
                within_board(ou),
                slider_scan(which as int, t, bb.merged_bitboard, sb, ob, fsb, fob, ou) == slider_scan(which as int, t, b, sb, ob, fsb, fob, ou),
            decreases bb.merged_bitboard,
        {
            let ghost before = bb.merged_bitboard;
            let p = Rule::pop_lsb(&mut bb);
            proof {
                if before != 0 {
                    lemma_lowest_on_board(before);
                }
            }
            if p == -1 {
                return None;
            }
            proof {
                lemma_clear_lowest(before, 0);
                assert forall|i: int| 0 <= i < 128 && #[trigger] has_bit(bb.merged_bitboard, i) implies 1 <= i <= 81 by {
                    lemma_clear_lowest(before, i as u128);
                    assert(has_bit(before, i));
                }
            }
            let q: u32 = if t == Teban::Sente { p as u32 } else { (80 - p) as u32 };
            let h = if which == 0 {
                Rule::kaku_hit_exec(sb, ob, fsb, fob, ou, q)
            } else if which == 1 {
                Rule::hisha_hit_exec(sb, ob, fsb, fob, ou, q)
            } else {
                Rule::kyou_hit_exec(fsb, fob, ou, q)
            };
            match h {
                Some(v) => { return Some(v); },
                None => {},
            }
        }
    }

    /// Whether the move `m` of side `teban` gives check (from a position not
    /// already in check it is exact; from one in check it may miss).
    pub fn is_oute_move(state: &State, teban: Teban, m: LegalMove) -> (r: bool)
        requires
            state.wf(),
            legal_on_board(m),
        ensures
            r == oute_spec(*state, teban, m),
    {
        let ps = state.get_part();
        proof {
            lemma_wf_within(*state, 8);
            lemma_wf_within(*state, 9);
            lemma_wf_within(*state, 16);
            lemma_wf_within(*state, 17);
            lemma_wf_within(*state, 18);
            lemma_wf_within(*state, 19);
            lemma_wf_within(*state, 20);
            lemma_wf_within(*state, 21);
            lemma_within_masked(ps.sente_kyou_board.merged_bitboard, ps.sente_nari_board.merged_bitboard);
            lemma_within_masked(ps.gote_kyou_board.merged_bitboard, ps.gote_nari_board.merged_bitboard);
        }
        let (sb, ob, fsb, fob, kaku, hisha, kyou, ou) = if teban == Teban::Sente {
            (ps.sente_self_board.merged_bitboard, ps.sente_opponent_board.merged_bitboard,
             ps.gote_opponent_board.merged_bitboard, ps.gote_self_board.merged_bitboard,
             ps.sente_kaku_board.merged_bitboard, ps.sente_hisha_board.merged_bitboard,
             ps.sente_kyou_board.merged_bitboard & !ps.sente_nari_board.merged_bitboard,
             ps.sente_opponent_ou_position_board.merged_bitboard)
        } else {
            (ps.gote_self_board.merged_bitboard, ps.gote_opponent_board.merged_bitboard,
             ps.sente_opponent_board.merged_bitboard, ps.sente_self_board.merged_bitboard,
             ps.gote_kaku_board.merged_bitboard, ps.gote_hisha_board.merged_bitboard,
             ps.gote_kyou_board.merged_bitboard & !ps.gote_nari_board.merged_bitboard,
             ps.gote_opponent_ou_position_board.merged_bitboard)
        };
        match m {
            LegalMove::To(mt) => {
                let from = mt.src();
                let dst = mt.dst();
                let kind = state.get_banmen().0[(from % 9) as usize][(from / 9) as usize];
                let board = Rule::gen_candidate_bits(teban, BitBoard { merged_bitboard: sb }, dst, kind);
                if ou & board.merged_bitboard != 0 {
                    return true;
                }
                let i = kind.to_index();
                let mut kb = kaku;
                let mut hb = hisha;
                let mut yb = kyou;
                if i == 5 || i == 12 || i == 19 || i == 26 {
                    proof {
                        lemma_within_moved(kb, from as u128, dst as u128);
                    }
                    kb = (kb & !(2u128 << from)) | (2u128 << dst);
                } else if i == 6 || i == 13 || i == 20 || i == 27 {
                    proof {
                        lemma_within_moved(hb, from as u128, dst as u128);
                    }
                    hb = (hb & !(2u128 << from)) | (2u128 << dst);
                } else if i == 1 || i == 15 {
                    proof {
                        lemma_within_moved(yb, from as u128, dst as u128);
                    }
                    yb = (yb & !(2u128 << from)) | (2u128 << dst);
                }
                let f = if teban == Teban::Sente { from } else { 80 - from };
                let sb2 = sb & !(2u128 << f);
                let fsb2 = fsb & !(2u128 << (80 - f));
                match Rule::slider_scan_exec(0, teban, kb, sb2, ob, fsb2, fob, ou) {
                    Some(v) => { return v; },
                    None => {},
                }
                match Rule::slider_scan_exec(1, teban, hb, sb2, ob, fsb2, fob, ou) {
                    Some(v) => { return v; },
                    None => {},
                }
                match Rule::slider_scan_exec(2, teban, yb, sb2, ob, fsb2, fob, ou) {
                    Some(v) => v,
                    None => false,
                }
            },
            LegalMove::Put(mp) => {
                let dst = mp.dst();
                let k = mp.kind();
                let kind = KomaKind::from_put(teban, k);
                let board = Rule::gen_candidate_bits(teban, BitBoard { merged_bitboard: sb }, dst, kind);
                if ou & board.merged_bitboard != 0 {
                    return true;
                }
                let f = if teban == Teban::Sente { dst } else { 80 - dst };
                match k {
                    MochigomaKind::Hisha => Rule::hisha_hit_exec(sb, ob, fsb, fob, ou, f) == Some(true),
                    MochigomaKind::Kaku => Rule::kaku_hit_exec(sb, ob, fsb, fob, ou, f) == Some(true),
                    MochigomaKind::Kyou => Rule::kyou_hit_exec(fsb, fob, ou, f) == Some(true),
                    _ => false,
                }
            },
        }
    }
}

/// How many of the bits 1 to `n` of `b` are set.
pub open spec fn bits_count(b: u128, n: int) -> nat
    decreases n,
{
    if n <= 0 { 0 } else { bits_count(b, n - 1) + if has_bit(b, n) { 1nat } else { 0nat } }
}

/// How many of the squares of `k` among the first `n` (bits 1 to `n`) have their
/// turned-around square set in `b`.
pub open spec fn flip_count(k: u128, b: u128, n: int) -> nat
    decreases n,
{
    if n <= 0 { 0 } else { flip_count(k, b, n - 1) + if has_bit(k, n) && has_bit(b, 82 - n) { 1nat } else { 0nat } }
}

/// Whether `k` is a piece of side `t`.
pub open spec fn owned_by(t: Teban, k: KomaKind) -> bool {
    if t == Teban::Sente { kind_index(k) < 14 } else { 14 <= kind_index(k) < 28 }
}

/// Whether the piece on column `dx`, row `dy` belongs to side `t` and steps
/// onto the square that `mask` leaves out.
pub open spec fn cell_hit(t: Teban, b: Banmen, mask: u128, dx: int, dy: int) -> nat {
    if owned_by(t, banmen_at(b, dx, dy)) && candidate_board(t, mask, (dx * 9 + dy) as u32, banmen_at(b, dx, dy)) != 0 {
        1
    } else {
        0
    }
}

/// The stepping hits from column `dx`, rows `ys` to `ye`.
pub open spec fn col_hits(t: Teban, b: Banmen, mask: u128, dx: int, ys: int, ye: int) -> nat
    decreases ye - ys + 1,
{
    if ys > ye { 0 } else { col_hits(t, b, mask, dx, ys, ye - 1) + cell_hit(t, b, mask, dx, ye) }
}

/// The stepping hits from columns `xs` to `xe`, rows `ys` to `ye`.
pub open spec fn area_hits(t: Teban, b: Banmen, mask: u128, xs: int, xe: int, ys: int, ye: int) -> nat
    decreases xe - xs + 1,
{
    if xs > xe { 0 } else { area_hits(t, b, mask, xs, xe - 1, ys, ye) + col_hits(t, b, mask, xe, ys, ye) }
}

/// One when `c` holds.
pub open spec fn one_if(c: bool) -> nat {
    if c { 1 } else { 0 }
}

/// The number of pieces of side `t` that reach square `to`: its pieces on
/// the neighbouring squares stepping there, knights, and bishops, rooks and
/// lances along their lines (the lines seen from both sides of the board).
pub open spec fn control_count_spec(t: Teban, state: State, to: int) -> nat {
    let b = state.banmen_spec();
    let p = state.part_spec();
    let ss = p.sente_self_board.merged_bitboard;
    let so = p.sente_opponent_board.merged_bitboard;
    let gs = p.gote_self_board.merged_bitboard;
    let go = p.gote_opponent_board.merged_bitboard;
    let x = to / 9;
    let y = to % 9;
    let mask: u128 = if t == Teban::Sente { !(1u128 << ((to + 1) as u128)) } else { !(1u128 << ((81 - to) as u128)) };
    let near = area_hits(t, b, mask, if x - 1 > 0 { x - 1 } else { 0 }, if x + 1 < 8 { x + 1 } else { 8 },
        if y - 1 > 0 { y - 1 } else { 0 }, if y + 1 < 8 { y + 1 } else { 8 });
    let kaku_s = kaku_rb_bits(ss, so, 0, to) | kaku_rt_bits(ss, so, 0, to);
    let kaku_g = kaku_rb_bits(go, gs, 0, 80 - to) | kaku_rt_bits(go, gs, 0, 80 - to);
    let hisha_g = hisha_top_bits(go, gs, 0, 80 - to) | hisha_right_bits(go, gs, 0, 80 - to);
    if t == Teban::Sente {
        let hisha_s = hisha_top_bits(ss, so, 0, to) | hisha_right_bits(ss, so, 0, to);
        near
            + one_if(x > 0 && y < 7 && banmen_at(b, x - 1, y + 2) == KomaKind::SKei)
            + one_if(x < 8 && y < 7 && banmen_at(b, x + 1, y + 2) == KomaKind::SKei)
            + bits_count(kaku_s & p.sente_kaku_board.merged_bitboard, 81)
            + flip_count(p.sente_kaku_board.merged_bitboard, kaku_g, 81)
            + flip_count(p.sente_hisha_board.merged_bitboard, hisha_g, 81)
            + bits_count(hisha_s & p.sente_hisha_board.merged_bitboard, 81)
            + one_if((hisha_s & (p.sente_kyou_board.merged_bitboard & !p.sente_nari_board.merged_bitboard)) != 0)
    } else {
        let hisha_s = hisha_top_bits(so, ss, 0, to) | hisha_right_bits(so, ss, 0, to);
        near
            + one_if(x < 8 && y > 1 && banmen_at(b, x + 1, y - 2) == KomaKind::GKei)
            + one_if(x > 0 && y > 1 && banmen_at(b, x - 1, y - 2) == KomaKind::GKei)
            + flip_count(p.gote_kaku_board.merged_bitboard & !p.gote_nari_board.merged_bitboard, kaku_g, 81)
            + bits_count(kaku_s & p.gote_kaku_board.merged_bitboard, 81)
            + bits_count(hisha_s & p.gote_hisha_board.merged_bitboard, 81)
            + flip_count(p.gote_hisha_board.merged_bitboard, hisha_g, 81)
            + flip_count(p.gote_kyou_board.merged_bitboard & !p.gote_nari_board.merged_bitboard, hisha_g, 81)
    }
}

proof fn lemma_counts_bounded(b: u128, k: u128, n: int)
    requires
        0 <= n,
    ensures
        bits_count(b, n) <= n,
        flip_count(k, b, n) <= n,
    decreases n,
{
    if n > 0 {
        lemma_counts_bounded(b, k, n - 1);
    }
}

impl Rule {
    /// The set bits of `b` among bits 1 to 81.
    fn count_bits(b: u128) -> (r: u32)
        ensures
            r == bits_count(b, 81),
    {
        let mut c: u32 = 0;
        let mut i: u32 = 1;
        while i <= 81
            invariant
                1 <= i <= 82,
                c == bits_count(b, i - 1),
                c <= i - 1,
            decreases 82 - i,
        {
            if (b >> (i as u128)) & 1u128 == 1u128 {
                c = c + 1;
            }
            i = i + 1;
        }
        c
    }

    /// The squares of `k` whose turned-around square is set in `b`.
    fn count_flip(k: u128, b: u128) -> (r: u32)
        ensures
            r == flip_count(k, b, 81),
    {
        let mut c: u32 = 0;
        let mut i: u32 = 1;
        while i <= 81
            invariant
                1 <= i <= 82,
                c == flip_count(k, b, i - 1),
                c <= i - 1,
            decreases 82 - i,
        {
            if (k >> (i as u128)) & 1u128 == 1u128 && (b >> ((82 - i) as u128)) & 1u128 == 1u128 {
                c = c + 1;
            }
            i = i + 1;
        }
        c
    }

    /// The stepping hits of the pieces on columns `xs` to `xe`, rows `ys` to `ye`.
    fn near_hits(teban: Teban, banmen: &Banmen, mask: u128, xs: i32, xe: i32, ys: i32, ye: i32) -> (r: u32)
        requires
            0 <= xs <= xe <= 8,
            0 <= ys <= ye <= 8,
        ensures
            r == area_hits(teban, *banmen, mask, xs as int, xe as int, ys as int, ye as int),
            r <= 81,
    {
        let mut near: u32 = 0;
        let mut dx = xs;
        while dx <= xe
            invariant
                0 <= xs <= dx <= xe + 1,
                xe <= 8,
                0 <= ys <= ye <= 8,
                near == area_hits(teban, *banmen, mask, xs as int, dx - 1, ys as int, ye as int),
                near <= (dx - xs) * 9,
            decreases xe + 1 - dx,
        {
            let mut dy = ys;
            let mut col: u32 = 0;
            while dy <= ye
                invariant
                    0 <= ys <= dy <= ye + 1,
                    ye <= 8,
                    0 <= dx <= 8,
                    col == col_hits(teban, *banmen, mask, dx as int, ys as int, dy - 1),
                    col <= dy - ys,
                decreases ye + 1 - dy,
            {
                let from = (dx * 9 + dy) as u32;
                let k = banmen.0[dy as usize][dx as usize];
                let ki = k.to_index();
                let owned = if teban == Teban::Sente { ki < 14 } else { 14 <= ki && ki < 28 };
                if owned {
                    let b = Rule::gen_candidate_bits(teban, BitBoard { merged_bitboard: mask }, from, k);
                    if b.merged_bitboard != 0 {
                        col = col + 1;
                    }
                }
                dy = dy + 1;
            }
            near = near + col;
            dx = dx + 1;
        }
        near
    }

    /// The line and knight hits of sente on `to` (column `x`, row `y`).
    fn sente_line_hits(state: &State, to: u32, x: i32, y: i32) -> (r: u32)
        requires
            to < 81,
            x == to / 9,
            y == to % 9,
        ensures
            r <= 500,
            r == ({
                let b = state.banmen_spec();
                let p = state.part_spec();
                let ss = p.sente_self_board.merged_bitboard;
                let so = p.sente_opponent_board.merged_bitboard;
                let gs = p.gote_self_board.merged_bitboard;
                let go = p.gote_opponent_board.merged_bitboard;
                let kaku_s = kaku_rb_bits(ss, so, 0, to as int) | kaku_rt_bits(ss, so, 0, to as int);
                let kaku_g = kaku_rb_bits(go, gs, 0, 80 - to) | kaku_rt_bits(go, gs, 0, 80 - to);
                let hisha_g = hisha_top_bits(go, gs, 0, 80 - to) | hisha_right_bits(go, gs, 0, 80 - to);
                let hisha_s = hisha_top_bits(ss, so, 0, to as int) | hisha_right_bits(ss, so, 0, to as int);
                one_if(x > 0 && y < 7 && banmen_at(b, x - 1, y + 2) == KomaKind::SKei)
                    + one_if(x < 8 && y < 7 && banmen_at(b, x + 1, y + 2) == KomaKind::SKei)
                    + bits_count(kaku_s & p.sente_kaku_board.merged_bitboard, 81)
                    + flip_count(p.sente_kaku_board.merged_bitboard, kaku_g, 81)
                    + flip_count(p.sente_hisha_board.merged_bitboard, hisha_g, 81)
                    + bits_count(hisha_s & p.sente_hisha_board.merged_bitboard, 81)
                    + one_if((hisha_s & (p.sente_kyou_board.merged_bitboard & !p.sente_nari_board.merged_bitboard)) != 0)
            }),
    {
        let banmen = state.get_banmen();
        let ps = state.get_part();
        let ss = ps.sente_self_board;
        let so = ps.sente_opponent_board;
        let gs = ps.gote_self_board;
        let go = ps.gote_opponent_board;
        let zero = BitBoard { merged_bitboard: 0 };
        let kaku_s = Rule::gen_candidate_bits_by_kaku_to_right_bottom_with_exclude(ss, so, zero, to).merged_bitboard
            | Rule::gen_candidate_bits_by_kaku_to_right_top_with_exclude(ss, so, zero, to).merged_bitboard;
        let kaku_g = Rule::gen_candidate_bits_by_kaku_to_right_bottom_with_exclude(go, gs, zero, 80 - to).merged_bitboard
            | Rule::gen_candidate_bits_by_kaku_to_right_top_with_exclude(go, gs, zero, 80 - to).merged_bitboard;
        let hisha_g = Rule::gen_candidate_bits_by_hisha_or_kyou_to_top_with_exclude(go, gs, zero, 80 - to).merged_bitboard
            | Rule::gen_candidate_bits_by_hisha_to_right_with_exclude(go, gs, zero, 80 - to).merged_bitboard;
        let hisha_s = Rule::gen_candidate_bits_by_hisha_or_kyou_to_top_with_exclude(ss, so, zero, to).merged_bitboard
            | Rule::gen_candidate_bits_by_hisha_to_right_with_exclude(ss, so, zero, to).merged_bitboard;
        let k1: u32 = if x > 0 && y < 7 && banmen.0[(y + 2) as usize][(x - 1) as usize] == KomaKind::SKei { 1 } else { 0 };
        let k2: u32 = if x < 8 && y < 7 && banmen.0[(y + 2) as usize][(x + 1) as usize] == KomaKind::SKei { 1 } else { 0 };
        let a = Rule::count_bits(kaku_s & ps.sente_kaku_board.merged_bitboard);
        let b = Rule::count_flip(ps.sente_kaku_board.merged_bitboard, kaku_g);
        let c = Rule::count_flip(ps.sente_hisha_board.merged_bitboard, hisha_g);
        let d = Rule::count_bits(hisha_s & ps.sente_hisha_board.merged_bitboard);
        let e: u32 = if (hisha_s & (ps.sente_kyou_board.merged_bitboard & !ps.sente_nari_board.merged_bitboard)) != 0 { 1 } else { 0 };
        proof {
            lemma_counts_bounded(kaku_s & ps.sente_kaku_board.merged_bitboard, ps.sente_kaku_board.merged_bitboard, 81);
            lemma_counts_bounded(kaku_g, ps.sente_kaku_board.merged_bitboard, 81);
            lemma_counts_bounded(hisha_g, ps.sente_hisha_board.merged_bitboard, 81);
            lemma_counts_bounded(hisha_s & ps.sente_hisha_board.merged_bitboard, 0, 81);
        }
        k1 + k2 + a + b + c + d + e
    }

    /// The line and knight hits of gote on `to` (column `x`, row `y`).
    fn gote_line_hits(state: &State, to: u32, x: i32, y: i32) -> (r: u32)
        requires
            to < 81,
            x == to / 9,
            y == to % 9,
        ensures
            r <= 500,
            r == ({
                let b = state.banmen_spec();
                let p = state.part_spec();
                let ss = p.sente_self_board.merged_bitboard;
                let so = p.sente_opponent_board.merged_bitboard;
                let gs = p.gote_self_board.merged_bitboard;
                let go = p.gote_opponent_board.merged_bitboard;
                let kaku_s = kaku_rb_bits(ss, so, 0, to as int) | kaku_rt_bits(ss, so, 0, to as int);
                let kaku_g = kaku_rb_bits(go, gs, 0, 80 - to) | kaku_rt_bits(go, gs, 0, 80 - to);
                let hisha_g = hisha_top_bits(go, gs, 0, 80 - to) | hisha_right_bits(go, gs, 0, 80 - to);
                let hisha_s = hisha_top_bits(so, ss, 0, to as int) | hisha_right_bits(so, ss, 0, to as int);
                one_if(x < 8 && y > 1 && banmen_at(b, x + 1, y - 2) == KomaKind::GKei)
                    + one_if(x > 0 && y > 1 && banmen_at(b, x - 1, y - 2) == KomaKind::GKei)
                    + flip_count(p.gote_kaku_board.merged_bitboard & !p.gote_nari_board.merged_bitboard, kaku_g, 81)
                    + bits_count(kaku_s & p.gote_kaku_board.merged_bitboard, 81)
                    + bits_count(hisha_s & p.gote_hisha_board.merged_bitboard, 81)
                    + flip_count(p.gote_hisha_board.merged_bitboard, hisha_g, 81)
                    + flip_count(p.gote_kyou_board.merged_bitboard & !p.gote_nari_board.merged_bitboard, hisha_g, 81)
            }),
    {
        let banmen = state.get_banmen();
        let ps = state.get_part();
        let ss = ps.sente_self_board;
        let so = ps.sente_opponent_board;
        let gs = ps.gote_self_board;
        let go = ps.gote_opponent_board;
        let zero = BitBoard { merged_bitboard: 0 };
        let kaku_s = Rule::gen_candidate_bits_by_kaku_to_right_bottom_with_exclude(ss, so, zero, to).merged_bitboard
            | Rule::gen_candidate_bits_by_kaku_to_right_top_with_exclude(ss, so, zero, to).merged_bitboard;
        let kaku_g = Rule::gen_candidate_bits_by_kaku_to_right_bottom_with_exclude(go, gs, zero, 80 - to).merged_bitboard
            | Rule::gen_candidate_bits_by_kaku_to_right_top_with_exclude(go, gs, zero, 80 - to).merged_bitboard;
        let hisha_g = Rule::gen_candidate_bits_by_hisha_or_kyou_to_top_with_exclude(go, gs, zero, 80 - to).merged_bitboard
            | Rule::gen_candidate_bits_by_hisha_to_right_with_exclude(go, gs, zero, 80 - to).merged_bitboard;
        let hisha_s = Rule::gen_candidate_bits_by_hisha_or_kyou_to_top_with_exclude(so, ss, zero, to).merged_bitboard
            | Rule::gen_candidate_bits_by_hisha_to_right_with_exclude(so, ss, zero, to).merged_bitboard;
        let k1: u32 = if x < 8 && y > 1 && banmen.0[(y - 2) as usize][(x + 1) as usize] == KomaKind::GKei { 1 } else { 0 };
        let k2: u32 = if x > 0 && y > 1 && banmen.0[(y - 2) as usize][(x - 1) as usize] == KomaKind::GKei { 1 } else { 0 };
        let gk = ps.gote_kaku_board.merged_bitboard & !ps.gote_nari_board.merged_bitboard;
        let gy = ps.gote_kyou_board.merged_bitboard & !ps.gote_nari_board.merged_bitboard;
        let a = Rule::count_flip(gk, kaku_g);
        let b = Rule::count_bits(kaku_s & ps.gote_kaku_board.merged_bitboard);
        let c = Rule::count_bits(hisha_s & ps.gote_hisha_board.merged_bitboard);
        let d = Rule::count_flip(ps.gote_hisha_board.merged_bitboard, hisha_g);
        let e = Rule::count_flip(gy, hisha_g);
        proof {
            lemma_counts_bounded(kaku_g, gk, 81);
            lemma_counts_bounded(kaku_s & ps.gote_kaku_board.merged_bitboard, 0, 81);
            lemma_counts_bounded(hisha_s & ps.gote_hisha_board.merged_bitboard, 0, 81);
            lemma_counts_bounded(hisha_g, ps.gote_hisha_board.merged_bitboard, 81);
            lemma_counts_bounded(hisha_g, gy, 81);
        }
        k1 + k2 + a + b + c + d + e
    }

    /// How many pieces of side `teban` reach square `to` (give the other
    /// side to count the defenders).
    pub fn control_count(teban: Teban, state: &State, to: i32) -> (r: usize)
        requires
            0 <= to < 81,
        ensures
            r == control_count_spec(teban, *state, to as int),
    {
        let x = to / 9;
        let y = to - x * 9;
        let mask: u128 = if teban == Teban::Sente { !(1u128 << ((to + 1) as u128)) } else { !(1u128 << ((80 - to + 1) as u128)) };
        let xs = if x - 1 > 0 { x - 1 } else { 0 };
        let xe = if x + 1 < 8 { x + 1 } else { 8 };
        let ys = if y - 1 > 0 { y - 1 } else { 0 };
        let ye = if y + 1 < 8 { y + 1 } else { 8 };
        let near = Rule::near_hits(teban, state.get_banmen(), mask, xs, xe, ys, ye);
        let lines = if teban == Teban::Sente {
            Rule::sente_line_hits(state, to as u32, x, y)
        } else {
            Rule::gote_line_hits(state, to as u32, x, y)
        };
        (near + lines) as usize
    }
}

} // verus!
