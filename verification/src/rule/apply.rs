//! Applying a move to the board, the pieces in hand and the bitboards.
use vstd::prelude::*;
use crate::bitboard::{BitBoard, has_bit};
use crate::shogi::{
    KomaKind, Teban, Banmen, MochigomaKind, ObtainKind, Mochigoma, MochigomaCollections, kind_index,
    nari_of, is_nari_kind, mochigoma_index, mochigoma_of_kind, kind_of_put, lemma_to_nari,
};
use crate::rule::{Rule, AppliedMove, AppliedMoveTo, AppliedMovePut, SquareToPoint, lemma_point_x};
use crate::rule::state::{
    State, PartialState, square_kind, field_board, field_pred, field_inverted, bit_pos, part_consistent,
    part_upto,
};

verus! {

/// The kind a piece becomes when it moves, promoting when `n`.
pub open spec fn moved_kind(k: KomaKind, n: bool) -> KomaKind {
    if n { nari_of(k) } else { k }
}

/// Every square the move names lies on the board.
pub open spec fn move_on_board(m: AppliedMove) -> bool {
    match m {
        AppliedMove::To(mt) => mt.src_spec() < 81 && mt.dst_spec() < 81,
        AppliedMove::Put(mp) => mp.dst_spec() < 81,
    }
}

/// The kind on square `s` after side `t` plays `m` on `b`.
pub open spec fn kind_after_move(b: Banmen, t: Teban, m: AppliedMove, s: int) -> KomaKind {
    match m {
        AppliedMove::To(mt) => if s == mt.dst_spec() {
            moved_kind(square_kind(b, mt.src_spec() as int), mt.nari_spec())
        } else if s == mt.src_spec() {
            KomaKind::Blank
        } else {
            square_kind(b, s)
        },
        AppliedMove::Put(mp) => if s == mp.dst_spec() {
            kind_of_put(t, mp.kind_spec())
        } else {
            square_kind(b, s)
        },
    }
}

/// The kind the move finds on its destination once the moving piece has left its origin.
pub open spec fn captured_kind(b: Banmen, m: AppliedMove) -> KomaKind {
    match m {
        AppliedMove::To(mt) => if mt.dst_spec() == mt.src_spec() {
            KomaKind::Blank
        } else {
            square_kind(b, mt.dst_spec() as int)
        },
        AppliedMove::Put(_) => KomaKind::Blank,
    }
}

/// The piece that goes to the mover's hand: the captured piece, unless it is a king.
pub open spec fn obtained_of_move(b: Banmen, m: AppliedMove) -> Option<MochigomaKind> {
    if captured_kind(b, m) == KomaKind::Blank {
        None
    } else {
        mochigoma_of_kind(captured_kind(b, m))
    }
}

/// The counts in hand of side `t` (all zero when neither side holds any piece).
pub open spec fn hand_of(mc: MochigomaCollections, t: Teban) -> Seq<u32> {
    match mc {
        MochigomaCollections::Empty => Seq::new(7, |i: int| 0u32),
        MochigomaCollections::Pair(ms, mg) => if t == Teban::Sente { ms@ } else { mg@ },
    }
}

/// The mover's hand has room for the piece the move captures.
pub open spec fn capture_fits(b: Banmen, t: Teban, mc: MochigomaCollections, m: AppliedMove) -> bool {
    match obtained_of_move(b, m) {
        Some(k) => hand_of(mc, t)[mochigoma_index(k)] < u32::MAX,
        None => true,
    }
}

/// The hands after side `t` plays `m`, as the function computes them.
pub open spec fn hands_after_move(
    b: Banmen,
    t: Teban,
    mc: MochigomaCollections,
    m: AppliedMove,
    r: MochigomaCollections,
) -> bool {
    match m {
        AppliedMove::Put(mp) => {
            let i = mochigoma_index(mp.kind_spec());
            match mc {
                MochigomaCollections::Empty => r == MochigomaCollections::Empty,
                MochigomaCollections::Pair(ms, mg) => r matches MochigomaCollections::Pair(a, g) && if t == Teban::Sente {
                    a@ == ms@.update(i, if ms@[i] == 0 { 0u32 } else { (ms@[i] - 1) as u32 }) && g@ == mg@
                } else {
                    a@ == ms@ && g@ == mg@.update(i, if mg@[i] == 0 { 0u32 } else { (mg@[i] - 1) as u32 })
                },
            }
        },
        AppliedMove::To(_) => match obtained_of_move(b, m) {
            None => r == mc,
            Some(k) => {
                let i = mochigoma_index(k);
                r matches MochigomaCollections::Pair(a, g) && if t == Teban::Sente {
                    a@ == hand_of(mc, Teban::Sente).update(i, (hand_of(mc, Teban::Sente)[i] + 1) as u32)
                        && g@ == hand_of(mc, Teban::Gote)
                } else {
                    a@ == hand_of(mc, Teban::Sente)
                        && g@ == hand_of(mc, Teban::Gote).update(i, (hand_of(mc, Teban::Gote)[i] + 1) as u32)
                }
            },
        },
    }
}

/// The board of `kinds`, square by square.
pub open spec fn kinds_at(kinds: [[KomaKind; 9]; 9], s: int) -> KomaKind {
    kinds[s % 9][s / 9]
}

/// Square `s` splits into its column and row, and two squares with the same ones are the same.
proof fn lemma_square_split(s: int, t: int)
    requires
        0 <= s < 81,
        0 <= t < 81,
    ensures
        0 <= s / 9 < 9,
        0 <= s % 9 < 9,
        (s / 9 == t / 9 && s % 9 == t % 9) ==> s == t,
{
    vstd::arithmetic::div_mod::lemma_fundamental_div_mod(s, 9);
    vstd::arithmetic::div_mod::lemma_fundamental_div_mod(t, 9);
}

/// A square of the board splits into its column and row.
pub proof fn lemma_square_split_pub(s: int)
    requires
        0 <= s < 81,
    ensures
        0 <= s / 9 < 9,
        0 <= s % 9 < 9,
{
    lemma_square_split(s, 0);
}

/// Puts `k` on square `s`.
fn set_square(kinds: &mut [[KomaKind; 9]; 9], s: u32, k: KomaKind)
    requires
        s < 81,
    ensures
        forall|t: int| 0 <= t < 81 ==> #[trigger] kinds_at(*final(kinds), t) == (if t == s { k } else { kinds_at(*old(kinds), t) }),
{
    proof {
        lemma_point_x(s);
        lemma_square_split(s as int, 0);
    }
    let (x, y) = s.square_to_point();
    let x = x as usize;
    let y = y as usize;
    let mut row = kinds[y];
    row[x] = k;
    kinds[y] = row;
    proof {
        assert forall|t: int| 0 <= t < 81 implies #[trigger] kinds_at(*kinds, t) == (if t == s { k } else { kinds_at(*old(kinds), t) }) by {
            lemma_square_split(s as int, t);
        }
    }
}

/// The kind on square `s`.
fn get_square(kinds: &[[KomaKind; 9]; 9], s: u32) -> (r: KomaKind)
    requires
        s < 81,
    ensures
        r == kinds_at(*kinds, s as int),
{
    proof {
        lemma_point_x(s);
        lemma_square_split(s as int, 0);
    }
    let (x, y) = s.square_to_point();
    kinds[y as usize][x as usize]
}

/// One less, but not below zero.
fn dec_count(c: u32) -> (r: u32)
    ensures
        r == (if c == 0 { 0u32 } else { (c - 1) as u32 }),
{
    if c == 0 { 0 } else { c - 1 }
}

impl Rule {
    /// The board, the hands and the piece taken into hand after side `t`
    /// plays `m`. Whether the move is legal is not checked.
    pub fn apply_move_to_banmen_and_mochigoma_none_check(
        banmen: &Banmen,
        t: Teban,
        mc: &MochigomaCollections,
        m: AppliedMove,
    ) -> (r: (Banmen, MochigomaCollections, Option<MochigomaKind>))
        requires
            move_on_board(m),
            capture_fits(*banmen, t, *mc, m),
        ensures
            forall|s: int| 0 <= s < 81 ==> #[trigger] square_kind(r.0, s) == kind_after_move(*banmen, t, m, s),
            r.2 == obtained_of_move(*banmen, m),
            hands_after_move(*banmen, t, *mc, m, r.1),
    {
        let mut kinds = banmen.0;
        match m {
            AppliedMove::To(mt) => {
                let from = mt.src();
                let to = mt.dst();
                let n = mt.is_nari();
                let k = get_square(&kinds, from);
                set_square(&mut kinds, from, KomaKind::Blank);
                let dst = get_square(&kinds, to);
                let moved = if n { k.to_nari() } else { k };
                set_square(&mut kinds, to, moved);
                proof {
                    assert forall|s: int| 0 <= s < 81 implies #[trigger] square_kind(Banmen(kinds), s) == kind_after_move(*banmen, t, m, s) by {
                        assert(kinds_at(kinds, s) == square_kind(Banmen(kinds), s));
                    }
                }
                if dst == KomaKind::Blank {
                    (Banmen(kinds), *mc, None)
                } else {
                    let obtained = match ObtainKind::try_from_koma(dst) {
                        Ok(o) => match MochigomaKind::try_from_obtain(o) {
                            Ok(k) => Some(k),
                            Err(_) => None,
                        },
                        Err(_) => None,
                    };
                    match obtained {
                        Some(o) => {
                            let (ms, mg) = match mc {
                                MochigomaCollections::Pair(ms, mg) => (*ms, *mg),
                                MochigomaCollections::Empty => (Mochigoma::new(), Mochigoma::new()),
                            };
                            match t {
                                Teban::Sente => {
                                    let mut ms = ms;
                                    ms.put(o);
                                    (Banmen(kinds), MochigomaCollections::Pair(ms, mg), Some(o))
                                },
                                Teban::Gote => {
                                    let mut mg = mg;
                                    mg.put(o);
                                    (Banmen(kinds), MochigomaCollections::Pair(ms, mg), Some(o))
                                },
                            }
                        },
                        None => (Banmen(kinds), *mc, None),
                    }
                }
            },
            AppliedMove::Put(mp) => {
                let to = mp.dst();
                let k = mp.kind();
                set_square(&mut kinds, to, KomaKind::from_put(t, k));
                proof {
                    assert forall|s: int| 0 <= s < 81 implies #[trigger] square_kind(Banmen(kinds), s) == kind_after_move(*banmen, t, m, s) by {
                        assert(kinds_at(kinds, s) == square_kind(Banmen(kinds), s));
                    }
                }
                let nmc = match mc {
                    MochigomaCollections::Pair(ms, mg) => match t {
                        Teban::Sente => {
                            let mut ms = *ms;
                            let c = dec_count(ms.get(k));
                            ms.insert(k, c);
                            MochigomaCollections::Pair(ms, *mg)
                        },
                        Teban::Gote => {
                            let mut mg = *mg;
                            let c = dec_count(mg.get(k));
                            mg.insert(k, c);
                            MochigomaCollections::Pair(*ms, mg)
                        },
                    },
                    MochigomaCollections::Empty => MochigomaCollections::Empty,
                };
                (Banmen(kinds), nmc, None)
            },
        }
    }
}


/// Bit of square `s` in field `f`.
pub open spec fn bit_of(f: int, s: int) -> u128 {
    1u128 << (bit_pos(f, s) as u128)
}

/// The fields that mark a piece of kind `k` (and so move with it).
pub open spec fn follows_mover(f: int, k: KomaKind) -> bool {
    field_pred(f, k)
}

/// Whether a piece of kind `k` moving to `to` finds an opposing piece there,
/// as the side's view of the opposing pieces shows it.
pub open spec fn captures_on(p: PartialState, k: KomaKind, to: int) -> bool {
    if kind_index(k) < 14 {
        has_bit(p.sente_opponent_board.merged_bitboard, to + 1)
    } else if kind_index(k) < 28 {
        has_bit(p.gote_opponent_board.merged_bitboard, 81 - to)
    } else {
        false
    }
}

/// The fields cleared on the destination when a piece of kind `c` is taken there.
pub open spec fn cleared_on_capture(f: int, c: KomaKind) -> bool {
    field_pred(f, c)
}

/// Whether the promotion board `f` of the mover's side gains the destination:
/// the piece `k` promotes on this move.
pub open spec fn nari_gain(f: int, k: KomaKind, nari: bool) -> bool {
    &&& nari
    &&& nari_of(k) != k
    &&& ((f == 4 && kind_index(k) < 14) || (f == 5 && 14 <= kind_index(k) < 28))
}

/// Field `f` (holding `b`) after a piece of kind `k` moves from `from` to `to`,
/// finding `c` there: the piece's own fields toggle both squares, the
/// promotion board gains the destination when `gain`, and on a capture the
/// taken piece's marks at the destination are cleared.
pub open spec fn field_update(
    f: int,
    b: u128,
    k: KomaKind,
    c: KomaKind,
    from: int,
    to: int,
    gain: bool,
    obtained: bool,
) -> u128 {
    let b1 = if follows_mover(f, k) { b ^ (bit_of(f, from) | bit_of(f, to)) } else { b };
    let b2 = if gain { b1 | bit_of(f, to) } else { b1 };
    if obtained && cleared_on_capture(f, c) {
        b2 & !bit_of(f, to)
    } else {
        b2
    }
}

/// Field `f` of `p` after the piece `k` moves from `from` to `to` (finding `c` there).
pub open spec fn field_after_to(p: PartialState, f: int, k: KomaKind, c: KomaKind, from: int, to: int, nari: bool) -> u128 {
    field_update(f, field_board(p, f), k, c, from, to, nari_gain(f, k, nari), captures_on(p, k, to))
}

/// Field `f` of `p` after the piece `k` is dropped on `to`.
pub open spec fn field_after_put(p: PartialState, f: int, k: KomaKind, to: int) -> u128 {
    if follows_mover(f, k) { field_board(p, f) ^ bit_of(f, to) } else { field_board(p, f) }
}

/// Field `f` of `p` after side `t` plays `m` on `b`.
pub open spec fn field_after_move(p: PartialState, b: Banmen, t: Teban, m: AppliedMove, f: int) -> u128 {
    match m {
        AppliedMove::To(mt) => field_after_to(
            p, f, square_kind(b, mt.src_spec() as int), square_kind(b, mt.dst_spec() as int),
            mt.src_spec() as int, mt.dst_spec() as int, mt.nari_spec(),
        ),
        AppliedMove::Put(mp) => field_after_put(p, f, kind_of_put(t, mp.kind_spec()), mp.dst_spec() as int),
    }
}

/// Twenty-two field equations gathered into one statement over every field.
proof fn lemma_gather_fields(r: PartialState, g: spec_fn(int) -> u128)
    requires
        field_board(r, 0) == g(0),
        field_board(r, 1) == g(1),
        field_board(r, 2) == g(2),
        field_board(r, 3) == g(3),
        field_board(r, 4) == g(4),
        field_board(r, 5) == g(5),
        field_board(r, 6) == g(6),
        field_board(r, 7) == g(7),
        field_board(r, 8) == g(8),
        field_board(r, 9) == g(9),
        field_board(r, 10) == g(10),
        field_board(r, 11) == g(11),
        field_board(r, 12) == g(12),
        field_board(r, 13) == g(13),
        field_board(r, 14) == g(14),
        field_board(r, 15) == g(15),
        field_board(r, 16) == g(16),
        field_board(r, 17) == g(17),
        field_board(r, 18) == g(18),
        field_board(r, 19) == g(19),
        field_board(r, 20) == g(20),
        field_board(r, 21) == g(21),
    ensures
        forall|f: int| 0 <= f < 22 ==> #[trigger] field_board(r, f) == g(f),
{
    assert forall|f: int| 0 <= f < 22 implies #[trigger] field_board(r, f) == g(f) by {
        if f == 0 { }
        else if f == 1 { }
        else if f == 2 { }
        else if f == 3 { }
        else if f == 4 { }
        else if f == 5 { }
        else if f == 6 { }
        else if f == 7 { }
        else if f == 8 { }
        else if f == 9 { }
        else if f == 10 { }
        else if f == 11 { }
        else if f == 12 { }
        else if f == 13 { }
        else if f == 14 { }
        else if f == 15 { }
        else if f == 16 { }
        else if f == 17 { }
        else if f == 18 { }
        else if f == 19 { }
        else if f == 20 { }
        else if f == 21 { }
    }
}

/// Testing a bit with a one-bit mask.
pub proof fn lemma_and_bit(x: u128, j: u128)
    requires
        j < 128,
    ensures
        ((x & (1u128 << j)) != 0) == has_bit(x, j as int),
{
    assert(j < 128 ==> (((x & (1u128 << j)) != 0) == ((x >> j) & 1u128 == 1u128))) by (bit_vector);
}

/// Position of square `s` in field `f`.
fn pos_exec(f: usize, s: u32) -> (r: u32)
    requires
        s < 81,
    ensures
        r == bit_pos(f as int, s as int),
        r < 128,
{
    if f == 2 || f == 3 || f == 21 { 81 - s } else { s + 1 }
}

/// Whether field `f` marks the piece `k`, promotion boards aside.
fn follows_mover_exec(f: usize, k: KomaKind) -> (r: bool)
    requires
        f < 22,
    ensures
        r == follows_mover(f as int, k),
{
    crate::rule::state::field_pred_exec(f, k)
}

/// Whether field `f` loses the destination when `c` is taken there.
fn cleared_exec(f: usize, c: KomaKind) -> (r: bool)
    requires
        f < 22,
    ensures
        r == cleared_on_capture(f as int, c),
{
    crate::rule::state::field_pred_exec(f, c)
}

fn field_update_exec(f: usize, b: u128, k: KomaKind, c: KomaKind, from: u32, to: u32, gain: bool, obtained: bool) -> (r: u128)
    requires
        f < 22,
        from < 81,
        to < 81,
    ensures
        r == field_update(f as int, b, k, c, from as int, to as int, gain, obtained),
{
    let bf = 1u128 << (pos_exec(f, from) as u128);
    let bt = 1u128 << (pos_exec(f, to) as u128);
    let b1 = if follows_mover_exec(f, k) { b ^ (bf | bt) } else { b };
    let b2 = if gain { b1 | bt } else { b1 };
    if obtained && cleared_exec(f, c) {
        b2 & !bt
    } else {
        b2
    }
}

fn field_put_exec(f: usize, b: u128, k: KomaKind, to: u32) -> (r: u128)
    requires
        f < 22,
        to < 81,
    ensures
        r == (if follows_mover(f as int, k) { b ^ bit_of(f as int, to as int) } else { b }),
{
    if follows_mover_exec(f, k) { b ^ (1u128 << (pos_exec(f, to) as u128)) } else { b }
}

impl Rule {
    /// The bitboards after side `t` plays `m`, updated from those of `state`
    /// without rebuilding them from the board. Whether the move is legal is not checked.
    pub fn apply_move_to_partial_state_none_check(
        state: &State,
        t: Teban,
        mc: &MochigomaCollections,
        m: AppliedMove,
    ) -> (r: PartialState)
        requires
            move_on_board(m),
        ensures
            forall|f: int| 0 <= f < 22 ==> #[trigger] field_board(r, f)
                == field_after_move(state.part_spec(), state.banmen_spec(), t, m, f),
    {
        let ps = *state.get_part();
        let kinds = state.get_banmen().0;
        match m {
            AppliedMove::To(mt) => {
                let from = mt.src();
                let to = mt.dst();
                let nari = mt.is_nari();
                let kind = get_square(&kinds, from);
                let captured = get_square(&kinds, to);
                let ki = kind.to_index();
                let to_mask: u128 = 1u128 << ((to + 1) as u128);
                let inverse_to_mask: u128 = 1u128 << ((81 - to) as u128);
                let obtained = if ki < 14 {
                    (ps.sente_opponent_board.merged_bitboard & to_mask) != 0
                } else if ki < 28 {
                    (ps.gote_opponent_board.merged_bitboard & inverse_to_mask) != 0
                } else {
                    false
                };
                let promotes = nari && kind.to_nari() != kind;
                let nari_s = ki < 14 && promotes;
                let nari_g = 14 <= ki && ki < 28 && promotes;
                proof {
                    lemma_and_bit(ps.sente_opponent_board.merged_bitboard, (to + 1) as u128);
                    lemma_and_bit(ps.gote_opponent_board.merged_bitboard, (81 - to) as u128);
                    assert(kinds_at(kinds, from as int) == square_kind(state.banmen_spec(), from as int));
                    assert(kinds_at(kinds, to as int) == square_kind(state.banmen_spec(), to as int));
                }
                let r = PartialState {
            sente_self_board: BitBoard { merged_bitboard: field_update_exec(0, ps.sente_self_board.merged_bitboard, kind, captured, from, to, false, obtained) },
            sente_opponent_board: BitBoard { merged_bitboard: field_update_exec(1, ps.sente_opponent_board.merged_bitboard, kind, captured, from, to, false, obtained) },
            gote_self_board: BitBoard { merged_bitboard: field_update_exec(2, ps.gote_self_board.merged_bitboard, kind, captured, from, to, false, obtained) },
            gote_opponent_board: BitBoard { merged_bitboard: field_update_exec(3, ps.gote_opponent_board.merged_bitboard, kind, captured, from, to, false, obtained) },
            sente_nari_board: BitBoard { merged_bitboard: field_update_exec(4, ps.sente_nari_board.merged_bitboard, kind, captured, from, to, nari_s, obtained) },
            gote_nari_board: BitBoard { merged_bitboard: field_update_exec(5, ps.gote_nari_board.merged_bitboard, kind, captured, from, to, nari_g, obtained) },
            sente_fu_board: BitBoard { merged_bitboard: field_update_exec(6, ps.sente_fu_board.merged_bitboard, kind, captured, from, to, false, obtained) },
            gote_fu_board: BitBoard { merged_bitboard: field_update_exec(7, ps.gote_fu_board.merged_bitboard, kind, captured, from, to, false, obtained) },
            sente_kyou_board: BitBoard { merged_bitboard: field_update_exec(8, ps.sente_kyou_board.merged_bitboard, kind, captured, from, to, false, obtained) },
            gote_kyou_board: BitBoard { merged_bitboard: field_update_exec(9, ps.gote_kyou_board.merged_bitboard, kind, captured, from, to, false, obtained) },
            sente_kei_board: BitBoard { merged_bitboard: field_update_exec(10, ps.sente_kei_board.merged_bitboard, kind, captured, from, to, false, obtained) },
            gote_kei_board: BitBoard { merged_bitboard: field_update_exec(11, ps.gote_kei_board.merged_bitboard, kind, captured, from, to, false, obtained) },
            sente_gin_board: BitBoard { merged_bitboard: field_update_exec(12, ps.sente_gin_board.merged_bitboard, kind, captured, from, to, false, obtained) },
            gote_gin_board: BitBoard { merged_bitboard: field_update_exec(13, ps.gote_gin_board.merged_bitboard, kind, captured, from, to, false, obtained) },
            sente_kin_board: BitBoard { merged_bitboard: field_update_exec(14, ps.sente_kin_board.merged_bitboard, kind, captured, from, to, false, obtained) },
            gote_kin_board: BitBoard { merged_bitboard: field_update_exec(15, ps.gote_kin_board.merged_bitboard, kind, captured, from, to, false, obtained) },
            sente_kaku_board: BitBoard { merged_bitboard: field_update_exec(16, ps.sente_kaku_board.merged_bitboard, kind, captured, from, to, false, obtained) },
            gote_kaku_board: BitBoard { merged_bitboard: field_update_exec(17, ps.gote_kaku_board.merged_bitboard, kind, captured, from, to, false, obtained) },
            sente_hisha_board: BitBoard { merged_bitboard: field_update_exec(18, ps.sente_hisha_board.merged_bitboard, kind, captured, from, to, false, obtained) },
            gote_hisha_board: BitBoard { merged_bitboard: field_update_exec(19, ps.gote_hisha_board.merged_bitboard, kind, captured, from, to, false, obtained) },
            sente_opponent_ou_position_board: BitBoard { merged_bitboard: field_update_exec(20, ps.sente_opponent_ou_position_board.merged_bitboard, kind, captured, from, to, false, obtained) },
            gote_opponent_ou_position_board: BitBoard { merged_bitboard: field_update_exec(21, ps.gote_opponent_ou_position_board.merged_bitboard, kind, captured, from, to, false, obtained) },
                };
                proof {
            assert(field_board(r, 0) == field_after_to(ps, 0, kind, captured, from as int, to as int, nari));
            assert(field_board(r, 1) == field_after_to(ps, 1, kind, captured, from as int, to as int, nari));
            assert(field_board(r, 2) == field_after_to(ps, 2, kind, captured, from as int, to as int, nari));
            assert(field_board(r, 3) == field_after_to(ps, 3, kind, captured, from as int, to as int, nari));
            assert(field_board(r, 4) == field_after_to(ps, 4, kind, captured, from as int, to as int, nari));
            assert(field_board(r, 5) == field_after_to(ps, 5, kind, captured, from as int, to as int, nari));
            assert(field_board(r, 6) == field_after_to(ps, 6, kind, captured, from as int, to as int, nari));
            assert(field_board(r, 7) == field_after_to(ps, 7, kind, captured, from as int, to as int, nari));
            assert(field_board(r, 8) == field_after_to(ps, 8, kind, captured, from as int, to as int, nari));
            assert(field_board(r, 9) == field_after_to(ps, 9, kind, captured, from as int, to as int, nari));
            assert(field_board(r, 10) == field_after_to(ps, 10, kind, captured, from as int, to as int, nari));
            assert(field_board(r, 11) == field_after_to(ps, 11, kind, captured, from as int, to as int, nari));
            assert(field_board(r, 12) == field_after_to(ps, 12, kind, captured, from as int, to as int, nari));
            assert(field_board(r, 13) == field_after_to(ps, 13, kind, captured, from as int, to as int, nari));
            assert(field_board(r, 14) == field_after_to(ps, 14, kind, captured, from as int, to as int, nari));
            assert(field_board(r, 15) == field_after_to(ps, 15, kind, captured, from as int, to as int, nari));
            assert(field_board(r, 16) == field_after_to(ps, 16, kind, captured, from as int, to as int, nari));
            assert(field_board(r, 17) == field_after_to(ps, 17, kind, captured, from as int, to as int, nari));
            assert(field_board(r, 18) == field_after_to(ps, 18, kind, captured, from as int, to as int, nari));
            assert(field_board(r, 19) == field_after_to(ps, 19, kind, captured, from as int, to as int, nari));
            assert(field_board(r, 20) == field_after_to(ps, 20, kind, captured, from as int, to as int, nari));
            assert(field_board(r, 21) == field_after_to(ps, 21, kind, captured, from as int, to as int, nari));
                    let g = |f: int| field_after_move(state.part_spec(), state.banmen_spec(), t, m, f);
                    lemma_gather_fields(r, g);
                }
                r
            },
            AppliedMove::Put(mp) => {
                let to = mp.dst();
                let kp = KomaKind::from_put(t, mp.kind());
                let r = PartialState {
            sente_self_board: BitBoard { merged_bitboard: field_put_exec(0, ps.sente_self_board.merged_bitboard, kp, to) },
            sente_opponent_board: BitBoard { merged_bitboard: field_put_exec(1, ps.sente_opponent_board.merged_bitboard, kp, to) },
            gote_self_board: BitBoard { merged_bitboard: field_put_exec(2, ps.gote_self_board.merged_bitboard, kp, to) },
            gote_opponent_board: BitBoard { merged_bitboard: field_put_exec(3, ps.gote_opponent_board.merged_bitboard, kp, to) },
            sente_nari_board: BitBoard { merged_bitboard: field_put_exec(4, ps.sente_nari_board.merged_bitboard, kp, to) },
            gote_nari_board: BitBoard { merged_bitboard: field_put_exec(5, ps.gote_nari_board.merged_bitboard, kp, to) },
            sente_fu_board: BitBoard { merged_bitboard: field_put_exec(6, ps.sente_fu_board.merged_bitboard, kp, to) },
            gote_fu_board: BitBoard { merged_bitboard: field_put_exec(7, ps.gote_fu_board.merged_bitboard, kp, to) },
            sente_kyou_board: BitBoard { merged_bitboard: field_put_exec(8, ps.sente_kyou_board.merged_bitboard, kp, to) },
            gote_kyou_board: BitBoard { merged_bitboard: field_put_exec(9, ps.gote_kyou_board.merged_bitboard, kp, to) },
            sente_kei_board: BitBoard { merged_bitboard: field_put_exec(10, ps.sente_kei_board.merged_bitboard, kp, to) },
            gote_kei_board: BitBoard { merged_bitboard: field_put_exec(11, ps.gote_kei_board.merged_bitboard, kp, to) },
            sente_gin_board: BitBoard { merged_bitboard: field_put_exec(12, ps.sente_gin_board.merged_bitboard, kp, to) },
            gote_gin_board: BitBoard { merged_bitboard: field_put_exec(13, ps.gote_gin_board.merged_bitboard, kp, to) },
            sente_kin_board: BitBoard { merged_bitboard: field_put_exec(14, ps.sente_kin_board.merged_bitboard, kp, to) },
            gote_kin_board: BitBoard { merged_bitboard: field_put_exec(15, ps.gote_kin_board.merged_bitboard, kp, to) },
            sente_kaku_board: BitBoard { merged_bitboard: field_put_exec(16, ps.sente_kaku_board.merged_bitboard, kp, to) },
            gote_kaku_board: BitBoard { merged_bitboard: field_put_exec(17, ps.gote_kaku_board.merged_bitboard, kp, to) },
            sente_hisha_board: BitBoard { merged_bitboard: field_put_exec(18, ps.sente_hisha_board.merged_bitboard, kp, to) },
            gote_hisha_board: BitBoard { merged_bitboard: field_put_exec(19, ps.gote_hisha_board.merged_bitboard, kp, to) },
            sente_opponent_ou_position_board: BitBoard { merged_bitboard: field_put_exec(20, ps.sente_opponent_ou_position_board.merged_bitboard, kp, to) },
            gote_opponent_ou_position_board: BitBoard { merged_bitboard: field_put_exec(21, ps.gote_opponent_ou_position_board.merged_bitboard, kp, to) },
                };
                proof {
            assert(field_board(r, 0) == field_after_put(ps, 0, kp, to as int));
            assert(field_board(r, 1) == field_after_put(ps, 1, kp, to as int));
            assert(field_board(r, 2) == field_after_put(ps, 2, kp, to as int));
            assert(field_board(r, 3) == field_after_put(ps, 3, kp, to as int));
            assert(field_board(r, 4) == field_after_put(ps, 4, kp, to as int));
            assert(field_board(r, 5) == field_after_put(ps, 5, kp, to as int));
            assert(field_board(r, 6) == field_after_put(ps, 6, kp, to as int));
            assert(field_board(r, 7) == field_after_put(ps, 7, kp, to as int));
            assert(field_board(r, 8) == field_after_put(ps, 8, kp, to as int));
            assert(field_board(r, 9) == field_after_put(ps, 9, kp, to as int));
            assert(field_board(r, 10) == field_after_put(ps, 10, kp, to as int));
            assert(field_board(r, 11) == field_after_put(ps, 11, kp, to as int));
            assert(field_board(r, 12) == field_after_put(ps, 12, kp, to as int));
            assert(field_board(r, 13) == field_after_put(ps, 13, kp, to as int));
            assert(field_board(r, 14) == field_after_put(ps, 14, kp, to as int));
            assert(field_board(r, 15) == field_after_put(ps, 15, kp, to as int));
            assert(field_board(r, 16) == field_after_put(ps, 16, kp, to as int));
            assert(field_board(r, 17) == field_after_put(ps, 17, kp, to as int));
            assert(field_board(r, 18) == field_after_put(ps, 18, kp, to as int));
            assert(field_board(r, 19) == field_after_put(ps, 19, kp, to as int));
            assert(field_board(r, 20) == field_after_put(ps, 20, kp, to as int));
            assert(field_board(r, 21) == field_after_put(ps, 21, kp, to as int));
                    let g = |f: int| field_after_move(state.part_spec(), state.banmen_spec(), t, m, f);
                    lemma_gather_fields(r, g);
                }
                r
            },
        }
    }
}


impl Rule {
    /// The state, the hands and the piece taken into hand after side `t`
    /// plays `m`. Whether the move is legal is not checked.
    pub fn apply_move_none_check(
        state: &State,
        t: Teban,
        mc: &MochigomaCollections,
        m: AppliedMove,
    ) -> (r: (State, MochigomaCollections, Option<MochigomaKind>))
        requires
            move_on_board(m),
            capture_fits(state.banmen_spec(), t, *mc, m),
        ensures
            forall|s: int| 0 <= s < 81 ==> #[trigger] square_kind(r.0.banmen_spec(), s)
                == kind_after_move(state.banmen_spec(), t, m, s),
            forall|f: int| 0 <= f < 22 ==> #[trigger] field_board(r.0.part_spec(), f)
                == field_after_move(state.part_spec(), state.banmen_spec(), t, m, f),
            r.2 == obtained_of_move(state.banmen_spec(), m),
            hands_after_move(state.banmen_spec(), t, *mc, m, r.1),
            state.wf() && move_keeps_bitboards(state.banmen_spec(), m) ==> r.0.wf(),
    {
        let ps = Rule::apply_move_to_partial_state_none_check(state, t, mc, m);
        let (banmen, nmc, o) = Rule::apply_move_to_banmen_and_mochigoma_none_check(state.get_banmen(), t, mc, m);
        let r = ps.to_full_state(banmen);
        proof {
            if state.wf() && move_keeps_bitboards(state.banmen_spec(), m) {
                law_partial_state_follows_board(*state, t, m);
                assert forall|f: int, s: int| 0 <= f < 22 && 0 <= s < 81 implies
                    (#[trigger] has_bit(field_board(r.part_spec(), f), bit_pos(f, s))
                        <==> field_pred(f, square_kind(r.banmen_spec(), s))) by {
                    assert(has_bit(field_after_move(state.part_spec(), state.banmen_spec(), t, m, f), bit_pos(f, s))
                        <==> field_pred(f, kind_after_move(state.banmen_spec(), t, m, s)));
                }
                assert forall|f: int, i: int| 0 <= f < 22 && 0 <= i < 128 && (i == 0 || i > 81) implies
                    !#[trigger] has_bit(field_board(r.part_spec(), f), i) by {
                    assert(!has_bit(field_after_move(state.part_spec(), state.banmen_spec(), t, m, f), i));
                }
            }
        }
        (r, nmc, o)
    }
}

/// A move whose bitboard update keeps the bitboards matching the board: a
/// piece moves to another square that is empty or holds an opposing piece, or
/// a piece is dropped on an empty square.
pub open spec fn move_keeps_bitboards(b: Banmen, m: AppliedMove) -> bool {
    match m {
        AppliedMove::To(mt) => {
            let k = square_kind(b, mt.src_spec() as int);
            let c = square_kind(b, mt.dst_spec() as int);
            &&& k != KomaKind::Blank
            &&& mt.src_spec() != mt.dst_spec()
            &&& (c == KomaKind::Blank || (kind_index(k) < 14) != (kind_index(c) < 14))
        },
        AppliedMove::Put(mp) => square_kind(b, mp.dst_spec() as int) == KomaKind::Blank,
    }
}

/// Flipping two distinct bits, and setting one.
proof fn lemma_two_bits(x: u128, a: u128, c: u128, i: u128)
    by (bit_vector)
    requires
        a < 128,
        c < 128,
        i < 128,
        a != c,
    ensures
        ((x ^ ((1u128 << a) | (1u128 << c))) >> i) & 1u128 == 1u128 <==> (((x >> i) & 1u128 == 1u128) != (i == a || i == c)),
        ((x | (1u128 << c)) >> i) & 1u128 == 1u128 <==> (((x >> i) & 1u128 == 1u128) || i == c),
        ((x ^ (1u128 << c)) >> i) & 1u128 == 1u128 <==> (((x >> i) & 1u128 == 1u128) != (i == c)),
        ((x & !(1u128 << c)) >> i) & 1u128 == 1u128 <==> (((x >> i) & 1u128 == 1u128) && i != c),
{
}

/// Two squares of the board differ in every field.
proof fn lemma_bit_pos_injective(f: int, s: int, t: int)
    requires
        0 <= s < 81,
        0 <= t < 81,
    ensures
        1 <= bit_pos(f, s) <= 81,
        bit_pos(f, s) == bit_pos(f, t) ==> s == t,
{
}

/// A board kind marks the same fields, promotion boards aside, once promoted.
proof fn lemma_pred_nari(f: int, k: KomaKind)
    requires
        0 <= f < 22,
        f != 4,
        f != 5,
    ensures
        field_pred(f, nari_of(k)) == field_pred(f, k),
{
}

/// A move that keeps the bitboards matching the board: updating the bitboards
/// of a consistent state in place gives exactly the bitboards of the board
/// the move produces.
pub proof fn law_partial_state_follows_board(state: State, t: Teban, m: AppliedMove)
    requires
        state.wf(),
        move_on_board(m),
        move_keeps_bitboards(state.banmen_spec(), m),
    ensures
        forall|f: int, s: int| 0 <= f < 22 && 0 <= s < 81 ==>
            (#[trigger] has_bit(field_after_move(state.part_spec(), state.banmen_spec(), t, m, f), bit_pos(f, s))
                <==> field_pred(f, kind_after_move(state.banmen_spec(), t, m, s))),
        forall|f: int, i: int| 0 <= f < 22 && 0 <= i < 128 && (i == 0 || i > 81) ==>
            !#[trigger] has_bit(field_after_move(state.part_spec(), state.banmen_spec(), t, m, f), i),
{
    let p = state.part_spec();
    let b = state.banmen_spec();
    match m {
        AppliedMove::To(mt) => {
            let from = mt.src_spec() as int;
            let to = mt.dst_spec() as int;
            let k = square_kind(b, from);
            let n = mt.nari_spec();
            let c = square_kind(b, to);
            assert(has_bit(field_board(p, 1), bit_pos(1, to)) <==> field_pred(1, c));
            assert(has_bit(field_board(p, 3), bit_pos(3, to)) <==> field_pred(3, c));
            assert(captures_on(p, k, to) <==> c != KomaKind::Blank);
            lemma_to_nari(k);
            assert forall|f: int, s: int| 0 <= f < 22 && 0 <= s < 81 implies
                (#[trigger] has_bit(field_after_move(p, b, t, m, f), bit_pos(f, s))
                    <==> field_pred(f, kind_after_move(b, t, m, s))) by {
                let x = field_board(p, f);
                let i = bit_pos(f, s);
                let pf = bit_pos(f, from) as u128;
                let pt = bit_pos(f, to) as u128;
                let b1 = if follows_mover(f, k) { x ^ (bit_of(f, from) | bit_of(f, to)) } else { x };
                let b2 = if nari_gain(f, k, n) { b1 | bit_of(f, to) } else { b1 };
                lemma_bit_pos_injective(f, s, from);
                lemma_bit_pos_injective(f, s, to);
                lemma_bit_pos_injective(f, from, to);
                lemma_two_bits(x, pf, pt, i as u128);
                lemma_two_bits(b1, pf, pt, i as u128);
                lemma_two_bits(b2, pf, pt, i as u128);
                assert(has_bit(x, i) <==> field_pred(f, square_kind(b, s)));
                assert(has_bit(x, bit_pos(f, from)) <==> field_pred(f, k));
                assert(has_bit(x, bit_pos(f, to)) <==> field_pred(f, c));
                if f != 4 && f != 5 {
                    lemma_pred_nari(f, k);
                }
            }
            assert forall|f: int, i: int| 0 <= f < 22 && 0 <= i < 128 && (i == 0 || i > 81) implies
                !#[trigger] has_bit(field_after_move(p, b, t, m, f), i) by {
                let x = field_board(p, f);
                let pf = bit_pos(f, from) as u128;
                let pt = bit_pos(f, to) as u128;
                let b1 = if follows_mover(f, k) { x ^ (bit_of(f, from) | bit_of(f, to)) } else { x };
                let b2 = if nari_gain(f, k, n) { b1 | bit_of(f, to) } else { b1 };
                lemma_bit_pos_injective(f, from, to);
                lemma_two_bits(x, pf, pt, i as u128);
                lemma_two_bits(b1, pf, pt, i as u128);
                lemma_two_bits(b2, pf, pt, i as u128);
                assert(!has_bit(x, i));
            }
        },
        AppliedMove::Put(mp) => {
            let to = mp.dst_spec() as int;
            let k = kind_of_put(t, mp.kind_spec());
            assert forall|f: int, s: int| 0 <= f < 22 && 0 <= s < 81 implies
                (#[trigger] has_bit(field_after_move(p, b, t, m, f), bit_pos(f, s))
                    <==> field_pred(f, kind_after_move(b, t, m, s))) by {
                let x = field_board(p, f);
                let i = bit_pos(f, s);
                lemma_bit_pos_injective(f, s, to);
                lemma_two_bits(x, 0, bit_pos(f, to) as u128, i as u128);
                assert(has_bit(x, i) <==> field_pred(f, square_kind(b, s)));
                assert(has_bit(x, bit_pos(f, to)) <==> field_pred(f, square_kind(b, to)));
            }
            assert forall|f: int, i: int| 0 <= f < 22 && 0 <= i < 128 && (i == 0 || i > 81) implies
                !#[trigger] has_bit(field_after_move(p, b, t, m, f), i) by {
                let x = field_board(p, f);
                lemma_bit_pos_injective(f, to, to);
                lemma_two_bits(x, 0, bit_pos(f, to) as u128, i as u128);
                assert(!has_bit(x, i));
            }
        },
    }
}

} // verus!
