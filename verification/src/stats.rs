//! History statistics gathered during search, used to order moves.
use vstd::prelude::*;
use crate::error::{IllegalParameterError, str_to_string};
use crate::rule::{LegalMove, LegalMoveTo, move_dst, move_obtained, move_is_nari, SquareToPoint, lemma_point_x};
use crate::rule::state::{State, square_kind};
use crate::rule::mate::{ou_boards_within, is_mate_spec};
use crate::rule::Rule;
use crate::shogi::{KomaKind, Teban, kind_index, nari_of, kind_of_put, mochigoma_index, obtain_index, opposite_of};

verus! {

/// `b` limited to `[-d, d]`.
pub open spec fn clamp_bonus(b: int, d: int) -> int {
    if b < -d {
        -d
    } else if b > d {
        d
    } else {
        b
    }
}

/// The absolute value of `x`.
pub open spec fn abs_int(x: int) -> int {
    if x < 0 {
        -x
    } else {
        x
    }
}

/// `x / d` rounded toward zero (for `d > 0`).
pub open spec fn div_toward_zero(x: int, d: int) -> int {
    if x >= 0 {
        x / d
    } else {
        -((-x) / d)
    }
}

/// The entry that adding `bonus` to an entry `e` of scale `d` gives: with `c` the
/// bonus limited to `[-d, d]`, `c - e * |c| / d`.
pub open spec fn gravity(e: int, bonus: int, d: int) -> int {
    let c = clamp_bonus(bonus, d);
    c - div_toward_zero(e * abs_int(c), d)
}

/// Adding `bonus` to `e` stays within `i32`, the product `e * |c|` included.
pub open spec fn gravity_fits(e: int, bonus: int, d: int) -> bool {
    let c = clamp_bonus(bonus, d);
    &&& i32::MIN <= e * abs_int(c) <= i32::MAX
    &&& i32::MIN <= gravity(e, bonus, d) <= i32::MAX
}

/// One history value of scale `D`.
#[derive(Clone, Copy, Debug, PartialEq, Eq, PartialOrd, Ord)]
pub struct StatsEntry<const D: u32> {
    entry: i32,
}

impl<const D: u32> StatsEntry<D> {
    /// The value held.
    pub closed spec fn entry_spec(&self) -> i32 {
        self.entry
    }

    /// An entry holding `entry`.
    pub fn new(entry: i32) -> (r: StatsEntry<D>)
        ensures
            r.entry_spec() == entry,
    {
        StatsEntry { entry: entry }
    }

    /// The value held.
    pub fn value(&self) -> (r: i32)
        ensures
            r == self.entry_spec(),
    {
        self.entry
    }

    /// The entry after adding `bonus` (see `gravity`).
    pub fn with_bonus(self, bonus: i32) -> (r: StatsEntry<D>)
        requires
            0 < D <= i32::MAX,
            gravity_fits(self.entry_spec() as int, bonus as int, D as int),
        ensures
            r.entry_spec() == gravity(self.entry_spec() as int, bonus as int, D as int),
    {
        let d: i64 = D as i64;
        let b: i64 = bonus as i64;
        let c: i64 = if b < -d {
            -d
        } else if b > d {
            d
        } else {
            b
        };
        let ac: i64 = if c < 0 {
            -c
        } else {
            c
        };
        let e: i64 = self.entry as i64;
        assert(-0x8000_0000 * 0x7fff_ffff <= e * ac <= 0x7fff_ffff * 0x7fff_ffff) by (nonlinear_arith)
            requires
                -0x8000_0000 <= e <= 0x7fff_ffff,
                0 <= ac <= 0x7fff_ffff,
        ;
        let p: i64 = e * ac;
        let q: i64 = if p >= 0 {
            ((p as u64) / (d as u64)) as i64
        } else {
            -((((-p) as u64) / (d as u64)) as i64)
        };
        StatsEntry { entry: (c - q) as i32 }
    }

    /// Adds `bonus` in place (see `gravity`).
    pub fn add_bonus(&mut self, bonus: i32)
        requires
            0 < D <= i32::MAX,
            gravity_fits(old(self).entry_spec() as int, bonus as int, D as int),
        ensures
            final(self).entry_spec() == gravity(old(self).entry_spec() as int, bonus as int, D as int),
    {
        *self = self.with_bonus(bonus);
    }
}

/// The values held by a row of entries.
pub open spec fn entries<const D: u32>(v: Seq<StatsEntry<D>>) -> Seq<i32> {
    v.map_values(|e: StatsEntry<D>| e.entry_spec())
}

/// `v` with the entry at `i` after adding `bonus` at scale `d`.
pub open spec fn bump(v: Seq<i32>, i: int, bonus: int, d: int) -> Seq<i32> {
    v.update(i, gravity(v[i] as int, bonus, d) as i32)
}

/// `i` is a place of `v` and adding `bonus` there stays within `i32`.
pub open spec fn bump_fits(v: Seq<i32>, i: int, bonus: int, d: int) -> bool {
    &&& 0 <= i < v.len()
    &&& gravity_fits(v[i] as int, bonus, d)
}

/// `n` entries holding `value`.
pub(crate) fn filled<const D: u32>(n: usize, value: i32) -> (r: Vec<StatsEntry<D>>)
    ensures
        entries(r@) == Seq::new(n as nat, |i: int| value),
{
    let mut v: Vec<StatsEntry<D>> = Vec::new();
    let mut i: usize = 0;
    while i < n
        invariant
            i <= n,
            v@.len() == i,
            entries(v@) == Seq::new(i as nat, |j: int| value),
        decreases n - i,
    {
        let e: StatsEntry<D> = StatsEntry::new(value);
        let ghost before = v@;
        v.push(e);
        i = i + 1;
        proof {
            assert forall|j: int| 0 <= j < i implies #[trigger] entries(v@)[j] == value by {
                if j < i - 1 {
                    assert(v@[j] == before[j]);
                    assert(entries(before)[j] == value);
                } else {
                    assert(v@[j] == e);
                }
            }
            assert(entries(v@) =~= Seq::new(i as nat, |j: int| value));
        }
    }
    v
}

/// Adds `bonus` to the entry at `i` of `v`.
pub(crate) fn bump_entry<const D: u32>(v: &mut Vec<StatsEntry<D>>, i: usize, bonus: i32)
    requires
        0 < D <= i32::MAX,
        bump_fits(entries(old(v)@), i as int, bonus as int, D as int),
    ensures
        entries(final(v)@) == bump(entries(old(v)@), i as int, bonus as int, D as int),
{
    let e = v[i];
    let n = e.with_bonus(bonus);
    v.set(i, n);
    proof {
        assert(entries(v@) =~= bump(entries(old(v)@), i as int, bonus as int, D as int));
    }
}


/// How many plies near the root keep their own history.
pub const LOW_PLY_HISTORY_SIZE: usize = 5;

/// Row of a side in the side-indexed tables.
pub open spec fn teban_index(t: Teban) -> int {
    match t {
        Teban::Sente => 0,
        Teban::Gote => 1,
    }
}

/// Key of a move in the move-indexed tables: promotion flag at 16384, origin
/// times 128, destination; a drop puts its kind plus 81 in place of the origin.
pub open spec fn move_key(m: LegalMove) -> int {
    match m {
        LegalMove::To(mt) => (if mt.nari_spec() { 16384int } else { 0int }) + mt.src_spec() * 128 + mt.dst_spec(),
        LegalMove::Put(mp) => (mochigoma_index(mp.kind_spec()) + 81) * 128 + mp.dst_spec(),
    }
}

/// The kind moved: `kind` for a move on the board, the dropped kind of side `t` for a drop.
pub open spec fn moved_kind(t: Teban, kind: KomaKind, m: LegalMove) -> KomaKind {
    match m {
        LegalMove::Put(mp) => kind_of_put(t, mp.kind_spec()),
        LegalMove::To(_) => kind,
    }
}

/// Index of the kind after the move (promoted when the move promotes).
pub open spec fn normalized_kind(t: Teban, kind: KomaKind, m: LegalMove) -> int {
    let k = moved_kind(t, kind, m);
    if move_is_nari(m) {
        kind_index(nari_of(k))
    } else {
        kind_index(k)
    }
}

/// Place of side `t` and move `m` in the main and low-ply tables.
pub open spec fn history_index(t: Teban, m: LegalMove) -> int {
    teban_index(t) * 32768 + move_key(m)
}

/// Place of kind `k` and square `sq` in the pawn table.
pub open spec fn pawn_index(k: int, sq: int) -> int {
    k * 81 + sq
}

/// Place of kind `k`, square `sq` and captured kind `o` in the capture table.
pub open spec fn capture_index(k: int, sq: int, o: int) -> int {
    (k * 81 + sq) * 14 + o
}

/// Place of ply `p`, kind `k` and square `sq` in the continuation table.
pub open spec fn cont_index(p: int, k: int, sq: int) -> int {
    p * 2268 + k * 81 + sq
}

/// `min(6, ply)`: how many earlier plies the continuation history reaches back.
pub open spec fn cont_reach(ply: int) -> int {
    if ply < 6 {
        ply
    } else {
        6
    }
}

/// The values at kind `k` and square `sq` of the plies `ply - 1`, `ply - 2`, ...
/// (at most six of them).
pub open spec fn cont_values(cont: Seq<i32>, ply: int, k: int, sq: int) -> Seq<i32> {
    Seq::new(cont_reach(ply) as nat, |i: int| cont[cont_index(ply - 1 - i, k, sq)])
}


/// The weight of the `i`-th earlier ply in continuation updates (out of 1024).
pub open spec fn cont_weight(i: int) -> int {
    if i == 0 {
        1157
    } else if i == 1 {
        648
    } else if i == 2 {
        288
    } else if i == 3 {
        576
    } else if i == 4 {
        140
    } else {
        441
    }
}

/// The bonus added at the `i`-th earlier ply: `bonus * weight / 1024`, plus 88 at the first.
pub open spec fn cont_step_bonus(bonus: int, i: int) -> int {
    div_toward_zero(bonus * cont_weight(i), 1024) + (if i < 1 { 88int } else { 0int })
}

/// How many earlier plies a continuation update reaches: at most six, at most two in check.
pub open spec fn cont_steps(ply: int, in_check: bool) -> int {
    if in_check && cont_reach(ply) > 2 {
        2
    } else {
        cont_reach(ply)
    }
}

/// The continuation table after the first `n` steps of an update at ply `ply`.
pub open spec fn conts_after(v: Seq<i32>, ply: int, k: int, sq: int, bonus: int, n: nat) -> Seq<i32>
    decreases n,
{
    if n == 0 {
        v
    } else {
        bump(conts_after(v, ply, k, sq, bonus, (n - 1) as nat), cont_index(ply - n, k, sq), cont_step_bonus(bonus, n - 1), 30000)
    }
}

/// The first `n` steps of an update at ply `ply` stay within `i32`.
pub open spec fn conts_fit(v: Seq<i32>, ply: int, k: int, sq: int, bonus: int, n: nat) -> bool
    decreases n,
{
    if n == 0 {
        true
    } else {
        &&& conts_fit(v, ply, k, sq, bonus, (n - 1) as nat)
        &&& i32::MIN <= bonus * cont_weight(n - 1) <= i32::MAX
        &&& bump_fits(conts_after(v, ply, k, sq, bonus, (n - 1) as nat), cont_index(ply - n, k, sq), cont_step_bonus(bonus, n - 1), 30000)
    }
}

/// Steps that fit stay fitting when fewer of them are taken.
proof fn lemma_conts_fit_prefix(v: Seq<i32>, ply: int, k: int, sq: int, bonus: int, i: nat, n: nat)
    requires
        i <= n,
        conts_fit(v, ply, k, sq, bonus, n),
    ensures
        conts_fit(v, ply, k, sq, bonus, i),
    decreases n,
{
    if i < n {
        lemma_conts_fit_prefix(v, ply, k, sq, bonus, i, (n - 1) as nat);
    }
}

/// An update leaves the length of the table.
proof fn lemma_conts_len(v: Seq<i32>, ply: int, k: int, sq: int, bonus: int, n: nat)
    requires
        conts_fit(v, ply, k, sq, bonus, n),
    ensures
        conts_after(v, ply, k, sq, bonus, n).len() == v.len(),
    decreases n,
{
    if n > 0 {
        lemma_conts_len(v, ply, k, sq, bonus, (n - 1) as nat);
    }
}

/// Whether the king of side `t` is in check.
pub open spec fn in_check_spec(t: Teban, state: State) -> bool {
    is_mate_spec(opposite_of(t), state)
}

/// The multiplier of pawn history updates: 850 for a positive bonus, 550 otherwise.
pub open spec fn pawn_weight(bonus: int) -> int {
    if bonus > 0 {
        850
    } else {
        550
    }
}


/// The five tables as values: main, pawn, capture, continuation and low-ply.
pub type HistoryTables = (Seq<i32>, Seq<i32>, Seq<i32>, Seq<i32>, Seq<i32>);

/// The tables after a continuation update at ply `ply` (none when `ply` exceeds `max_ply`).
pub open spec fn conts_update(h: HistoryTables, max_ply: int, ply: int, teban: Teban, in_check: bool, kind: KomaKind,
    m: LegalMove, bonus: int) -> HistoryTables {
    if ply > max_ply {
        h
    } else {
        (h.0, h.1, h.2, conts_after(h.3, ply, normalized_kind(teban, kind, m), move_dst(m) as int, bonus,
            cont_steps(ply, in_check) as nat), h.4)
    }
}

/// A continuation update neither panics nor overflows.
pub open spec fn conts_update_fits(h: HistoryTables, max_ply: int, ply: int, teban: Teban, in_check: bool, kind: KomaKind,
    m: LegalMove, bonus: int) -> bool {
    ply <= max_ply ==> {
        &&& moved_kind(teban, kind, m) != KomaKind::Blank
        &&& (ply > 0 ==> move_dst(m) < 81)
        &&& conts_fit(h.3, ply, normalized_kind(teban, kind, m), move_dst(m) as int, bonus, cont_steps(ply, in_check) as nat)
    }
}

/// The tables after a quiet update of `m` (a move of `kind`) by side `teban`:
/// main history, low-ply history below `LOW_PLY_HISTORY_SIZE`, then (when
/// `ply` does not exceed `max_ply`) continuation and pawn histories.
pub open spec fn quiet_update(h: HistoryTables, max_ply: int, ply: int, teban: Teban, in_check: bool, kind: KomaKind,
    m: LegalMove, bonus: int) -> HistoryTables {
    let main = bump(h.0, history_index(teban, m), bonus, 7183);
    let low = if ply < 5 {
        bump(h.4, history_index(teban, m), div_toward_zero(bonus * 761, 1024), 7183)
    } else {
        h.4
    };
    if ply > max_ply {
        (main, h.1, h.2, h.3, low)
    } else {
        let nk = normalized_kind(teban, kind, m);
        (main, bump(h.1, pawn_index(nk, move_dst(m) as int), div_toward_zero(bonus * pawn_weight(bonus), 1024), 8192), h.2,
            conts_after(h.3, ply, nk, move_dst(m) as int, div_toward_zero(bonus * 955, 1024), cont_steps(ply, in_check) as nat), low)
    }
}

/// A quiet update neither panics nor overflows.
pub open spec fn quiet_update_fits(h: HistoryTables, max_ply: int, ply: int, teban: Teban, in_check: bool, kind: KomaKind,
    m: LegalMove, bonus: int) -> bool {
    &&& i32::MIN <= bonus * 955 <= i32::MAX
    &&& bump_fits(h.0, history_index(teban, m), bonus, 7183)
    &&& ply < 5 ==> bump_fits(h.4, history_index(teban, m), div_toward_zero(bonus * 761, 1024), 7183)
    &&& ply <= max_ply ==> {
        &&& moved_kind(teban, kind, m) != KomaKind::Blank
        &&& move_dst(m) < 81
        &&& conts_fit(h.3, ply, normalized_kind(teban, kind, m), move_dst(m) as int, div_toward_zero(bonus * 955, 1024),
            cont_steps(ply, in_check) as nat)
        &&& bump_fits(h.1, pawn_index(normalized_kind(teban, kind, m), move_dst(m) as int),
            div_toward_zero(bonus * pawn_weight(bonus), 1024), 8192)
    }
}


/// The kind standing after move `m` of side `t`: the piece on its destination for
/// a move on the board, the dropped kind for a drop.
pub open spec fn after_piece(t: Teban, state: State, m: LegalMove) -> KomaKind {
    match m {
        LegalMove::To(mt) => square_kind(state.banmen_spec(), mt.dst_spec() as int),
        LegalMove::Put(mp) => kind_of_put(t, mp.kind_spec()),
    }
}

/// The difference of static evaluations limited to `[-200, 156]`, plus 58.
pub open spec fn eval_diff(static_eval: int, prev_static_eval: int) -> int {
    let x = -prev_static_eval + static_eval;
    (if x < -200 { -200int } else if x > 156 { 156int } else { x }) + 58
}

/// `min(130 * depth - 71, 1043)`, with `depth` taken as an `i32`.
pub open spec fn tt_bonus(depth: u32) -> int {
    let x = 130 * (depth as i32) - 71;
    if x < 1043 {
        x
    } else {
        1043
    }
}


/// The scale of a fail-low bonus: -228, less `stat_score / 104`, plus
/// `min(63 * depth, 508)`, 184 past eight moves, 143 when not in check with
/// `best_value <= static_eval - 92`, 149 when the opponent was not in check with
/// `best_value <= 70 - prev_static_eval`; never below 0.
pub open spec fn fail_low_scale(stat_score: int, depth: u32, move_count: int, in_check: bool, best_value: int,
    static_eval: int, prev_in_check: bool, prev_static_eval: int) -> int {
    let d = 63 * (depth as i32);
    let s = -228 - div_toward_zero(stat_score, 104)
        + (if d < 508 { d } else { 508 })
        + (if move_count > 8 { 184int } else { 0int })
        + (if !in_check && best_value <= static_eval - 92 { 143int } else { 0int })
        + (if !prev_in_check && best_value <= -(prev_static_eval - 70) { 149int } else { 0int });
    if s < 0 {
        0
    } else {
        s
    }
}

/// `min(144 * depth - 92, 1365)`, with `depth` taken as an `i32`.
pub open spec fn fail_low_base(depth: u32) -> int {
    let x = 144 * (depth as i32) - 92;
    if x < 1365 {
        x
    } else {
        1365
    }
}


/// The kind a searched quiet move moves: the piece on its origin, `Blank` for a drop.
pub open spec fn quiet_kind(state: State, m: LegalMove) -> KomaKind {
    match m {
        LegalMove::To(mt) => square_kind(state.banmen_spec(), mt.src_spec() as int),
        LegalMove::Put(_) => KomaKind::Blank,
    }
}

/// The tables after quiet updates by `bonus` of the first `n` of `quiets`.
pub open spec fn quiets_update(h: HistoryTables, max_ply: int, ply: int, teban: Teban, in_check: bool, state: State,
    quiets: Seq<LegalMove>, bonus: int, n: nat) -> HistoryTables
    decreases n,
{
    if n == 0 {
        h
    } else {
        quiet_update(quiets_update(h, max_ply, ply, teban, in_check, state, quiets, bonus, (n - 1) as nat), max_ply, ply, teban,
            in_check, quiet_kind(state, quiets[n - 1]), quiets[n - 1], bonus)
    }
}

/// Quiet updates of the first `n` of `quiets` neither panic nor overflow.
pub open spec fn quiets_fit(h: HistoryTables, max_ply: int, ply: int, teban: Teban, in_check: bool, state: State,
    quiets: Seq<LegalMove>, bonus: int, n: nat) -> bool
    decreases n,
{
    if n == 0 {
        true
    } else {
        &&& quiets_fit(h, max_ply, ply, teban, in_check, state, quiets, bonus, (n - 1) as nat)
        &&& (quiets[n - 1] matches LegalMove::To(mt) ==> mt.src_spec() < 81)
        &&& quiet_update_fits(quiets_update(h, max_ply, ply, teban, in_check, state, quiets, bonus, (n - 1) as nat), max_ply, ply,
            teban, in_check, quiet_kind(state, quiets[n - 1]), quiets[n - 1], bonus)
    }
}

/// Place in the capture table of a searched capture, by the piece on its origin.
pub open spec fn capture_place(state: State, m: LegalMoveTo) -> int {
    let k = square_kind(state.banmen_spec(), m.src_spec() as int);
    capture_index(if m.nari_spec() { kind_index(nari_of(k)) } else { kind_index(k) }, m.dst_spec() as int,
        obtain_index(m.obtained_spec()->0))
}

/// The capture table after adding `bonus` for each of the first `n` of `captures`
/// that captures a piece.
pub open spec fn captures_update(cap: Seq<i32>, state: State, captures: Seq<LegalMoveTo>, bonus: int, n: nat) -> Seq<i32>
    decreases n,
{
    if n == 0 {
        cap
    } else {
        let prev = captures_update(cap, state, captures, bonus, (n - 1) as nat);
        if captures[n - 1].obtained_spec() is Some {
            bump(prev, capture_place(state, captures[n - 1]), bonus, 10692)
        } else {
            prev
        }
    }
}

/// The capture updates of the first `n` of `captures` neither panic nor overflow.
pub open spec fn captures_fit(cap: Seq<i32>, state: State, captures: Seq<LegalMoveTo>, bonus: int, n: nat) -> bool
    decreases n,
{
    if n == 0 {
        true
    } else {
        let m = captures[n - 1];
        &&& captures_fit(cap, state, captures, bonus, (n - 1) as nat)
        &&& m.obtained_spec() is Some ==> {
            &&& m.src_spec() < 81
            &&& m.dst_spec() < 81
            &&& square_kind(state.banmen_spec(), m.src_spec() as int) != KomaKind::Blank
            &&& bump_fits(captures_update(cap, state, captures, bonus, (n - 1) as nat), capture_place(state, m), bonus, 10692)
        }
    }
}

/// The bonus of `update_all_stats`: `min(121 * depth - 77, 1633)`, plus 375 when
/// the best move is the transposition-table move.
pub open spec fn all_stats_bonus(depth: u32, is_tt: bool) -> int {
    let x = 121 * (depth as i32) - 77;
    (if x < 1633 { x } else { 1633 }) + (if is_tt { 375int } else { 0int })
}

/// The malus of `update_all_stats`: `min(825 * depth - 196, 2159) - 16 * move_count`.
pub open spec fn all_stats_malus(depth: u32, move_count: usize) -> int {
    let y = 825 * (depth as i32) - 196;
    (if y < 2159 { y } else { 2159 }) - 16 * (move_count as i32)
}

/// The tables after the first part of `update_all_stats` (the best move, and the
/// searched quiet moves when the best move is quiet), and whether it went through.
pub open spec fn all_stats_first(h: HistoryTables, max_ply: int, ply: int, teban: Teban, in_check: bool, state: State,
    best_kind: KomaKind, best_move: LegalMove, quiets: Seq<LegalMove>, bonus: int, malus: int) -> (HistoryTables, bool) {
    if move_obtained(best_move) is Some {
        ((h.0, h.1, bump(h.2, capture_index(normalized_kind(teban, best_kind, best_move), move_dst(best_move) as int,
            obtain_index(move_obtained(best_move)->0)), div_toward_zero(bonus * 1482, 1024), 10692), h.3, h.4), true)
    } else {
        let h1 = quiet_update(h, max_ply, ply, teban, in_check, best_kind, best_move, div_toward_zero(bonus * 881, 1024));
        if ply > max_ply {
            (h1, false)
        } else {
            (quiets_update(h1, max_ply, ply, teban, in_check, state, quiets, div_toward_zero(-malus * 1083, 1024), quiets.len()), true)
        }
    }
}

/// Whether the opponent's previous capture is updated in `update_all_stats`.
pub open spec fn all_stats_does_prev(tt_hit: bool, prev_move: Option<LegalMove>) -> bool {
    tt_hit && prev_move is Some && move_obtained(prev_move->0) is Some
}

/// `x / d` rounded toward zero.
pub(crate) fn div_tz(x: i32, d: i32) -> (r: i32)
    requires
        d > 0,
    ensures
        r == div_toward_zero(x as int, d as int),
{
    if x >= 0 {
        ((x as u32) / (d as u32)) as i32
    } else {
        let nx: i64 = -(x as i64);
        let q: i64 = ((nx as u64) / (d as u64)) as i64;
        (-q) as i32
    }
}

/// Quiet updates that fit stay fitting when fewer of them are taken.
proof fn lemma_quiets_fit_prefix(h: HistoryTables, max_ply: int, ply: int, teban: Teban, in_check: bool, state: State,
    quiets: Seq<LegalMove>, bonus: int, i: nat, n: nat)
    requires
        i <= n,
        quiets_fit(h, max_ply, ply, teban, in_check, state, quiets, bonus, n),
    ensures
        quiets_fit(h, max_ply, ply, teban, in_check, state, quiets, bonus, i),
    decreases n,
{
    if i < n {
        lemma_quiets_fit_prefix(h, max_ply, ply, teban, in_check, state, quiets, bonus, i, (n - 1) as nat);
    }
}

/// Capture updates that fit stay fitting when fewer of them are taken.
proof fn lemma_captures_fit_prefix(cap: Seq<i32>, state: State, captures: Seq<LegalMoveTo>, bonus: int, i: nat, n: nat)
    requires
        i <= n,
        captures_fit(cap, state, captures, bonus, n),
    ensures
        captures_fit(cap, state, captures, bonus, i),
    decreases n,
{
    if i < n {
        lemma_captures_fit_prefix(cap, state, captures, bonus, i, (n - 1) as nat);
    }
}

/// Row of side `t`.
fn teban_to_index(t: Teban) -> (r: usize)
    ensures
        r == teban_index(t),
{
    match t {
        Teban::Sente => 0,
        Teban::Gote => 1,
    }
}

/// Key of `m` (see `move_key`).
fn key(m: LegalMove) -> (r: usize)
    ensures
        r == move_key(m),
        r < 32768,
{
    match m {
        LegalMove::To(mt) => {
            let n: usize = if mt.is_nari() { 16384 } else { 0 };
            n + (mt.src() as usize) * 128 + mt.dst() as usize
        },
        LegalMove::Put(mp) => {
            let k = mp.kind().to_index();
            (k + 81) * 128 + mp.dst() as usize
        },
    }
}

/// Index of the kind after the move; refused by `requires` for a move of no piece.
fn normalize_kind(t: Teban, kind: KomaKind, m: LegalMove) -> (r: usize)
    requires
        moved_kind(t, kind, m) != KomaKind::Blank,
    ensures
        r == normalized_kind(t, kind, m),
        r < 28,
{
    let k = match m {
        LegalMove::Put(mp) => KomaKind::from_put(t, mp.kind()),
        LegalMove::To(_) => kind,
    };
    if m.is_nari() {
        k.to_nari().to_index()
    } else {
        k.to_index()
    }
}

/// The kind standing on square `s`.
pub(crate) fn kind_on(state: &State, s: u32) -> (r: KomaKind)
    requires
        s < 81,
    ensures
        r == square_kind(state.banmen_spec(), s as int),
{
    proof {
        lemma_point_x(s);
        crate::rule::apply::lemma_square_split_pub(s as int);
        vstd::arithmetic::div_mod::lemma_fundamental_div_mod(s as int, 9);
    }
    let (x, y) = s.square_to_point();
    state.get_banmen().0[y as usize][x as usize]
}

/// The kind standing after move `m` of side `t` (see `after_piece`).
fn moved_after_piece(t: Teban, state: &State, m: LegalMove) -> (r: KomaKind)
    requires
        move_dst(m) < 81,
    ensures
        r == after_piece(t, *state, m),
{
    match m {
        LegalMove::To(mt) => kind_on(state, mt.dst()),
        LegalMove::Put(mp) => KomaKind::from_put(t, mp.kind()),
    }
}

/// `fail_low_base(depth) * fail_low_scale(..)`.
fn fail_low_bonus(depth: u32, stat_score: i32, move_count: usize, check: bool, best_value: i32, static_eval: i32,
    prev_in_check: bool, prev_static_eval: i32) -> (b: i32)
    requires
        i32::MIN <= 63 * (depth as i32) <= i32::MAX,
        i32::MIN <= 144 * (depth as i32) - 92,
        144 * (depth as i32) <= i32::MAX,
        !check ==> i32::MIN <= static_eval - 92,
        !prev_in_check ==> i32::MIN < prev_static_eval - 70,
        i32::MIN <= fail_low_base(depth) * fail_low_scale(stat_score as int, depth, move_count as int, check, best_value as int,
            static_eval as int, prev_in_check, prev_static_eval as int) * 1164 <= i32::MAX,
    ensures
        b == fail_low_base(depth) * fail_low_scale(stat_score as int, depth, move_count as int, check, best_value as int,
            static_eval as int, prev_in_check, prev_static_eval as int),
{
    let mut scale: i32 = -228;
    scale = scale - div_tz(stat_score, 104);
    let d63: i32 = 63 * (depth as i32);
    scale = scale + if d63 < 508 { d63 } else { 508 };
    scale = scale + if move_count > 8 { 184 } else { 0 };
    scale = scale + if !check && best_value <= static_eval - 92 { 143 } else { 0 };
    scale = scale + if !prev_in_check && best_value <= -(prev_static_eval - 70) { 149 } else { 0 };
    if scale < 0 {
        scale = 0;
    }
    let x: i32 = 144 * (depth as i32) - 92;
    let base: i32 = if x < 1365 { x } else { 1365 };
    proof {
        let b = base * scale;
        assert(i32::MIN <= b <= i32::MAX) by (nonlinear_arith)
            requires
                i32::MIN <= b * 1164 <= i32::MAX,
        ;
    }
    base * scale
}

/// The history tables that search keeps to order quiet moves and captures.
pub struct StatsHistory {
    max_ply: usize,
    main_history: Vec<StatsEntry<7183>>,
    pawn_history: Vec<StatsEntry<8192>>,
    capture_history: Vec<StatsEntry<10692>>,
    continuation_history: Vec<StatsEntry<30000>>,
    low_ply_history: Vec<StatsEntry<7183>>,
}

impl StatsHistory {
    /// The deepest ply kept.
    pub closed spec fn max_ply_spec(&self) -> int {
        self.max_ply as int
    }

    /// Main history: by side and move key (`history_index`).
    pub closed spec fn main_view(&self) -> Seq<i32> {
        entries(self.main_history@)
    }

    /// Pawn history: by kind and destination (`pawn_index`).
    pub closed spec fn pawn_view(&self) -> Seq<i32> {
        entries(self.pawn_history@)
    }

    /// Capture history: by kind, destination and captured kind (`capture_index`).
    pub closed spec fn capture_view(&self) -> Seq<i32> {
        entries(self.capture_history@)
    }

    /// Continuation history: by ply, kind and destination (`cont_index`).
    pub closed spec fn cont_view(&self) -> Seq<i32> {
        entries(self.continuation_history@)
    }

    /// Low-ply history: by side and move key (`history_index`).
    pub closed spec fn low_view(&self) -> Seq<i32> {
        entries(self.low_ply_history@)
    }

    /// The five tables.
    pub open spec fn tables(&self) -> HistoryTables {
        (self.main_view(), self.pawn_view(), self.capture_view(), self.cont_view(), self.low_view())
    }

    /// The tables have their sizes.
    pub open spec fn wf(&self) -> bool {
        &&& self.main_view().len() == 65536
        &&& self.pawn_view().len() == 2268
        &&& self.capture_view().len() == 31752
        &&& self.cont_view().len() == (self.max_ply_spec() + 1) * 2268
        &&& self.low_view().len() == 163840
    }

    /// Fresh tables for plies up to `max_ply`.
    pub fn new(max_ply: usize) -> (r: StatsHistory)
        requires
            (max_ply + 1) * 2268 <= usize::MAX,
        ensures
            r.wf(),
            r.max_ply_spec() == max_ply,
            r.main_view() == Seq::new(65536, |i: int| 68i32),
            r.pawn_view() == Seq::new(2268, |i: int| -1238i32),
            r.capture_view() == Seq::new(31752, |i: int| -689i32),
            r.cont_view() == Seq::new(((max_ply + 1) * 2268) as nat, |i: int| -529i32),
            r.low_view() == Seq::new(163840, |i: int| 97i32),
    {
        StatsHistory {
            max_ply: max_ply,
            main_history: filled(65536, 68),
            pawn_history: filled(2268, -1238),
            capture_history: filled(31752, -689),
            continuation_history: filled((max_ply + 1) * 2268, -529),
            low_ply_history: filled(163840, 97),
        }
    }

    /// Resets the continuation and low-ply tables, at the start of a search.
    pub fn startup(&mut self)
        requires
            old(self).wf(),
        ensures
            final(self).wf(),
            final(self).max_ply_spec() == old(self).max_ply_spec(),
            final(self).main_view() == old(self).main_view(),
            final(self).pawn_view() == old(self).pawn_view(),
            final(self).capture_view() == old(self).capture_view(),
            final(self).cont_view() == Seq::new(old(self).cont_view().len(), |i: int| -529i32),
            final(self).low_view() == Seq::new(163840, |i: int| 97i32),
    {
        let n = self.continuation_history.len();
        self.continuation_history = filled(n, -529);
        self.low_ply_history = filled(163840, 97);
    }

    /// Resets every table.
    pub fn clear(&mut self)
        requires
            old(self).wf(),
        ensures
            final(self).wf(),
            final(self).max_ply_spec() == old(self).max_ply_spec(),
            final(self).main_view() == Seq::new(65536, |i: int| 68i32),
            final(self).pawn_view() == Seq::new(2268, |i: int| -1238i32),
            final(self).capture_view() == Seq::new(31752, |i: int| -689i32),
            final(self).cont_view() == Seq::new(old(self).cont_view().len(), |i: int| -529i32),
            final(self).low_view() == Seq::new(163840, |i: int| 97i32),
    {
        self.main_history = filled(65536, 68);
        self.pawn_history = filled(2268, -1238);
        self.capture_history = filled(31752, -689);
        let n = self.continuation_history.len();
        self.continuation_history = filled(n, -529);
        self.low_ply_history = filled(163840, 97);
    }

    /// The main history of side `teban` for `m`.
    pub fn lookup_main_history(&self, teban: Teban, m: LegalMove) -> (r: Result<i32, IllegalParameterError>)
        requires
            self.wf(),
        ensures
            r == Ok::<i32, IllegalParameterError>(self.main_view()[history_index(teban, m)]),
    {
        let k = key(m);
        let t = teban_to_index(teban);
        Ok(self.main_history[t * 32768 + k].value())
    }

    /// The low-ply history of side `teban` for `m`; refused when `ply` is not below
    /// `LOW_PLY_HISTORY_SIZE`.
    pub fn lookup_low_ply_history(&self, ply: usize, teban: Teban, m: LegalMove) -> (r: Result<i32, IllegalParameterError>)
        requires
            self.wf(),
        ensures
            ply >= LOW_PLY_HISTORY_SIZE <==> r is Err,
            ply < LOW_PLY_HISTORY_SIZE ==> r == Ok::<i32, IllegalParameterError>(self.low_view()[history_index(teban, m)]),
    {
        if ply >= LOW_PLY_HISTORY_SIZE {
            return Err(IllegalParameterError::new(str_to_string("ply value exceeds max_ply.")));
        }
        let k = key(m);
        let t = teban_to_index(teban);
        Ok(self.low_ply_history[t * 32768 + k].value())
    }

    /// The pawn history of the kind moved by `m` (`kind` for a move on the board)
    /// at its destination.
    pub fn lookup_pawn_history(&self, teban: Teban, kind: KomaKind, m: LegalMove) -> (r: Result<i32, IllegalParameterError>)
        requires
            self.wf(),
            moved_kind(teban, kind, m) != KomaKind::Blank,
            move_dst(m) < 81,
        ensures
            r == Ok::<i32, IllegalParameterError>(self.pawn_view()[pawn_index(normalized_kind(teban, kind, m), move_dst(m) as int)]),
    {
        let k = normalize_kind(teban, kind, m);
        let d = m.dst() as usize;
        Ok(self.pawn_history[k * 81 + d].value())
    }

    /// The continuation histories of the kind moved by `m` at its destination, in
    /// the plies `ply - 1`, `ply - 2`, ... (at most six); refused when `ply`
    /// exceeds the deepest ply kept.
    pub fn continuation_histories_iter(&self, ply: usize, teban: Teban, kind: KomaKind, m: LegalMove)
        -> (r: Result<Vec<StatsEntry<30000>>, IllegalParameterError>)
        requires
            self.wf(),
            ply <= self.max_ply_spec() ==> moved_kind(teban, kind, m) != KomaKind::Blank,
            0 < ply <= self.max_ply_spec() ==> move_dst(m) < 81,
        ensures
            ply > self.max_ply_spec() <==> r is Err,
            r matches Ok(v) ==> entries(v@) == cont_values(self.cont_view(), ply as int, normalized_kind(teban, kind, m), move_dst(m) as int),
    {
        if ply > self.max_ply {
            return Err(IllegalParameterError::new(str_to_string("ply value exceeds max_ply.")));
        }
        let k = normalize_kind(teban, kind, m);
        let n: usize = if ply < 6 { ply } else { 6 };
        let mut v: Vec<StatsEntry<30000>> = Vec::new();
        let mut i: usize = 0;
        if n > 0 {
            let d = m.dst() as usize;
            let clen = self.continuation_history.len();
            while i < n
                invariant
                    self.wf(),
                    clen == self.cont_view().len(),
                    ply <= self.max_ply_spec(),
                    n == cont_reach(ply as int),
                    k < 28,
                    d < 81,
                    i <= n,
                    v@.len() == i,
                    entries(v@) == Seq::new(i as nat, |j: int| self.cont_view()[cont_index(ply - 1 - j, k as int, d as int)]),
                decreases n - i,
            {
                let p = ply - 1 - i;
                proof {
                    let m = self.max_ply_spec();
                    assert(p * 2268 + 2268 <= (m + 1) * 2268) by (nonlinear_arith)
                        requires
                            p < m + 1,
                    ;
                }
                let idx = p * 2268 + k * 81 + d;
                let e = self.continuation_history[idx];
                let ghost before = v@;
                v.push(e);
                i = i + 1;
                proof {
                    assert forall|j: int| 0 <= j < i implies #[trigger] entries(v@)[j]
                        == self.cont_view()[cont_index(ply - 1 - j, k as int, d as int)] by {
                        if j < i - 1 {
                            assert(v@[j] == before[j]);
                            assert(entries(before)[j] == self.cont_view()[cont_index(ply - 1 - j, k as int, d as int)]);
                        } else {
                            assert(v@[j] == e);
                        }
                    }
                    assert(entries(v@) =~= Seq::new(i as nat, |j: int| self.cont_view()[cont_index(ply - 1 - j, k as int, d as int)]));
                }
            }
        }
        proof {
            assert(entries(v@) =~= cont_values(self.cont_view(), ply as int, normalized_kind(teban, kind, m), move_dst(m) as int));
        }
        Ok(v)
    }

    /// Adds `bonus` to the continuation history of the kind moved by `m` at its
    /// destination, in ply `ply`; refused when `ply` exceeds the deepest ply kept.
    pub fn update_continuation_history(&mut self, ply: usize, teban: Teban, kind: KomaKind, m: LegalMove, bonus: i32)
        -> (r: Result<(), IllegalParameterError>)
        requires
            old(self).wf(),
            ply <= old(self).max_ply_spec() ==> {
                &&& moved_kind(teban, kind, m) != KomaKind::Blank
                &&& move_dst(m) < 81
                &&& bump_fits(old(self).cont_view(), cont_index(ply as int, normalized_kind(teban, kind, m), move_dst(m) as int), bonus as int, 30000)
            },
        ensures
            final(self).wf(),
            final(self).max_ply_spec() == old(self).max_ply_spec(),
            final(self).main_view() == old(self).main_view(),
            final(self).pawn_view() == old(self).pawn_view(),
            final(self).capture_view() == old(self).capture_view(),
            final(self).low_view() == old(self).low_view(),
            ply > old(self).max_ply_spec() <==> r is Err,
            final(self).cont_view() == if ply > old(self).max_ply_spec() {
                old(self).cont_view()
            } else {
                bump(old(self).cont_view(), cont_index(ply as int, normalized_kind(teban, kind, m), move_dst(m) as int), bonus as int, 30000)
            },
    {
        if ply > self.max_ply {
            return Err(IllegalParameterError::new(str_to_string("ply value exceeds max_ply.")));
        }
        let k = normalize_kind(teban, kind, m);
        let d = m.dst() as usize;
        proof {
            let mp = self.max_ply_spec();
            assert(ply * 2268 + 2268 <= (mp + 1) * 2268) by (nonlinear_arith)
                requires
                    ply <= mp,
            ;
        }
        let clen = self.continuation_history.len();
        assert(clen == self.cont_view().len());
        let idx = ply * 2268 + k * 81 + d;
        bump_entry(&mut self.continuation_history, idx, bonus);
        Ok(())
    }

    /// Adds to the continuation histories of the kind moved by `m` at its destination
    /// in the plies `ply - 1`, `ply - 2`, ... (at most six, at most two when
    /// `in_check`): the `i`-th gets `cont_step_bonus(bonus, i)`; refused when `ply`
    /// exceeds the deepest ply kept.
    pub fn update_continuation_histories(&mut self, ply: usize, teban: Teban, in_check: bool, kind: KomaKind, m: LegalMove, bonus: i32)
        -> (r: Result<(), IllegalParameterError>)
        requires
            old(self).wf(),
            conts_update_fits(old(self).tables(), old(self).max_ply_spec(), ply as int, teban, in_check, kind, m, bonus as int),
        ensures
            final(self).wf(),
            final(self).max_ply_spec() == old(self).max_ply_spec(),
            ply > old(self).max_ply_spec() <==> r is Err,
            final(self).tables() == conts_update(old(self).tables(), old(self).max_ply_spec(), ply as int, teban, in_check, kind, m, bonus as int),
    {
        if ply > self.max_ply {
            return Err(IllegalParameterError::new(str_to_string("ply value exceeds max_ply.")));
        }
        let k = normalize_kind(teban, kind, m);
        let reach: usize = if ply < 6 { ply } else { 6 };
        let n: usize = if in_check && reach > 2 { 2 } else { reach };
        let ghost v0 = self.cont_view();
        let ghost nk = k as int;
        if n == 0 {
            return Ok(());
        }
        let d = m.dst() as usize;
        let weights: [i32; 6] = [1157, 648, 288, 576, 140, 441];
        let clen = self.continuation_history.len();
        let mut i: usize = 0;
        while i < n
            invariant
                self.wf(),
                (self.max_ply_spec() + 1) * 2268 <= usize::MAX,
                self.max_ply_spec() == old(self).max_ply_spec(),
                self.main_view() == old(self).main_view(),
                self.pawn_view() == old(self).pawn_view(),
                self.capture_view() == old(self).capture_view(),
                self.low_view() == old(self).low_view(),
                v0 == old(self).cont_view(),
                ply <= self.max_ply_spec(),
                n == cont_steps(ply as int, in_check),
                n <= 6,
                n <= ply,
                k < 28,
                d < 81,
                nk == k,
                weights@ == seq![1157i32, 648, 288, 576, 140, 441],
                i <= n,
                conts_fit(v0, ply as int, nk, d as int, bonus as int, n as nat),
                self.cont_view() == conts_after(v0, ply as int, nk, d as int, bonus as int, i as nat),
            decreases n - i,
        {
            proof {
                lemma_conts_fit_prefix(v0, ply as int, nk, d as int, bonus as int, (i + 1) as nat, n as nat);
                lemma_conts_fit_prefix(v0, ply as int, nk, d as int, bonus as int, i as nat, n as nat);
                lemma_conts_len(v0, ply as int, nk, d as int, bonus as int, i as nat);
                let mp = self.max_ply_spec();
                let p = ply - 1 - i;
                assert(p * 2268 + 2268 <= (mp + 1) * 2268) by (nonlinear_arith)
                    requires
                        p <= mp,
                ;
            }
            let w = weights[i];
            let prod: i32 = bonus * w;
            let q = div_tz(prod, 1024);
            let extra: i32 = if i < 1 { 88 } else { 0 };
            let b: i32 = q + extra;
            let idx = (ply - 1 - i) * 2268 + k * 81 + d;
            bump_entry(&mut self.continuation_history, idx, b);
            i = i + 1;
        }
        Ok(())
    }

    /// Adds `bonus` to the quiet histories of `m`, a move of `kind` (the kind of
    /// the dropped piece for a drop) by side `teban`: the main history, the
    /// low-ply history below `LOW_PLY_HISTORY_SIZE` (`bonus * 761 / 1024`), the
    /// continuation histories (`bonus * 955 / 1024`, fewer plies when `teban` is in
    /// check) and the pawn history (`bonus * 850 / 1024`, or `* 550` for a bonus
    /// that is not positive). Refused after the first two when `ply` exceeds the
    /// deepest ply kept.
    pub fn update_quiet_histories(&mut self, ply: usize, teban: Teban, state: &State, kind: KomaKind, m: LegalMove, bonus: i32)
        -> (r: Result<(), IllegalParameterError>)
        requires
            old(self).wf(),
            ou_boards_within(state.part_spec()),
            quiet_update_fits(old(self).tables(), old(self).max_ply_spec(), ply as int, teban, in_check_spec(teban, *state), kind, m, bonus as int),
        ensures
            final(self).wf(),
            final(self).max_ply_spec() == old(self).max_ply_spec(),
            ply > old(self).max_ply_spec() <==> r is Err,
            final(self).tables() == quiet_update(old(self).tables(), old(self).max_ply_spec(), ply as int, teban,
                in_check_spec(teban, *state), kind, m, bonus as int),
    {
        let hk = teban_to_index(teban) * 32768 + key(m);
        bump_entry(&mut self.main_history, hk, bonus);
        if ply < LOW_PLY_HISTORY_SIZE {
            let b = div_tz(bonus * 761, 1024);
            bump_entry(&mut self.low_ply_history, hk, b);
        }
        let check = Rule::in_check(teban, state);
        let cb = div_tz(bonus * 955, 1024);
        let res = self.update_continuation_histories(ply, teban, check, kind, m, cb);
        if res.is_err() {
            return res;
        }
        let k = normalize_kind(teban, kind, m);
        let w: i32 = if bonus > 0 { 850 } else { 550 };
        let pb = div_tz(bonus * w, 1024);
        let d = m.dst() as usize;
        bump_entry(&mut self.pawn_history, k * 81 + d, pb);
        Ok(())
    }

    /// After the opponent's move `prev_move` (of `prev_kind`), adds to its main
    /// history `eval_diff * 9`, and, unless `tt_hit` or the move promotes, to its
    /// pawn history `eval_diff * 14`.
    pub fn update_quiet_histories_by_static_eval(&mut self, teban: Teban, tt_hit: bool, prev_kind: KomaKind, prev_move: LegalMove,
        static_eval: i32, prev_static_eval: i32) -> (r: Result<(), IllegalParameterError>)
        requires
            old(self).wf(),
            i32::MIN < prev_static_eval,
            i32::MIN <= -prev_static_eval + static_eval <= i32::MAX,
            bump_fits(old(self).main_view(), history_index(opposite_of(teban), prev_move),
                eval_diff(static_eval as int, prev_static_eval as int) * 9, 7183),
            !tt_hit && !move_is_nari(prev_move) ==> {
                &&& moved_kind(opposite_of(teban), prev_kind, prev_move) != KomaKind::Blank
                &&& move_dst(prev_move) < 81
                &&& bump_fits(old(self).pawn_view(), pawn_index(normalized_kind(opposite_of(teban), prev_kind, prev_move),
                    move_dst(prev_move) as int), eval_diff(static_eval as int, prev_static_eval as int) * 14, 8192)
            },
        ensures
            final(self).wf(),
            final(self).max_ply_spec() == old(self).max_ply_spec(),
            r is Ok,
            final(self).capture_view() == old(self).capture_view(),
            final(self).cont_view() == old(self).cont_view(),
            final(self).low_view() == old(self).low_view(),
            final(self).main_view() == bump(old(self).main_view(), history_index(opposite_of(teban), prev_move),
                eval_diff(static_eval as int, prev_static_eval as int) * 9, 7183),
            final(self).pawn_view() == if !tt_hit && !move_is_nari(prev_move) {
                bump(old(self).pawn_view(), pawn_index(normalized_kind(opposite_of(teban), prev_kind, prev_move),
                    move_dst(prev_move) as int), eval_diff(static_eval as int, prev_static_eval as int) * 14, 8192)
            } else {
                old(self).pawn_view()
            },
    {
        let opp = teban.opposite();
        let x: i32 = -prev_static_eval + static_eval;
        let c: i32 = if x < -200 { -200 } else if x > 156 { 156 } else { x };
        let diff: i32 = c + 58;
        let hk = teban_to_index(opp) * 32768 + key(prev_move);
        bump_entry(&mut self.main_history, hk, diff * 9);
        if !tt_hit && !prev_move.is_nari() {
            let k = normalize_kind(opp, prev_kind, prev_move);
            let d = prev_move.dst() as usize;
            bump_entry(&mut self.pawn_history, k * 81 + d, diff * 14);
        }
        Ok(())
    }

    /// After the opponent's capture `prev_move` failed low, adds 964 to its capture
    /// history; refused for a move that captures nothing.
    pub fn update_capture_histories_when_fail_low(&mut self, teban: Teban, state: &State, prev_move: LegalMove)
        -> (r: Result<(), IllegalParameterError>)
        requires
            old(self).wf(),
            move_obtained(prev_move) is Some ==> {
                &&& move_dst(prev_move) < 81
                &&& moved_kind(opposite_of(teban), after_piece(opposite_of(teban), *state, prev_move), prev_move) != KomaKind::Blank
                &&& bump_fits(old(self).capture_view(), capture_index(
                    normalized_kind(opposite_of(teban), after_piece(opposite_of(teban), *state, prev_move), prev_move),
                    move_dst(prev_move) as int, obtain_index(move_obtained(prev_move)->0)), 964, 10692)
            },
        ensures
            final(self).wf(),
            final(self).max_ply_spec() == old(self).max_ply_spec(),
            move_obtained(prev_move) is None <==> r is Err,
            final(self).main_view() == old(self).main_view(),
            final(self).pawn_view() == old(self).pawn_view(),
            final(self).cont_view() == old(self).cont_view(),
            final(self).low_view() == old(self).low_view(),
            final(self).capture_view() == if move_obtained(prev_move) is Some {
                bump(old(self).capture_view(), capture_index(
                    normalized_kind(opposite_of(teban), after_piece(opposite_of(teban), *state, prev_move), prev_move),
                    move_dst(prev_move) as int, obtain_index(move_obtained(prev_move)->0)), 964, 10692)
            } else {
                old(self).capture_view()
            },
    {
        match prev_move.obtained() {
            Some(o) => {
                let opp = teban.opposite();
                let piece = moved_after_piece(opp, state, prev_move);
                let k = normalize_kind(opp, piece, prev_move);
                let d = prev_move.dst() as usize;
                let oi = o.to_index() as usize;
                bump_entry(&mut self.capture_history, (k * 81 + d) * 14 + oi, 964);
                Ok(())
            },
            None => Err(IllegalParameterError::new(str_to_string("This is a non-capture move."))),
        }
    }

    /// After the transposition-table move `tt_move` (of `tt_kind`) failed high: a
    /// quiet update of it by `tt_bonus(depth)` unless it captures, then, when the
    /// opponent's `prev_move` captured nothing and `move_count` is at most 4, a
    /// continuation update of `prev_move` at `ply - 1` by -2142. Refused where an
    /// update is, when `ply` exceeds the deepest ply kept.
    pub fn update_quiet_histories_by_fail_high_tt_move(&mut self, ply: usize, depth: u32, teban: Teban, state: &State,
        tt_kind: KomaKind, tt_move: LegalMove, move_count: usize, prev_move: Option<LegalMove>)
        -> (r: Result<(), IllegalParameterError>)
        requires
            old(self).wf(),
            ou_boards_within(state.part_spec()),
            i32::MIN <= 130 * (depth as i32) - 71,
            130 * (depth as i32) <= i32::MAX,
            move_obtained(tt_move) is None ==> quiet_update_fits(old(self).tables(), old(self).max_ply_spec(), ply as int, teban,
                in_check_spec(teban, *state), tt_kind, tt_move, tt_bonus(depth)),
            prev_move is Some && move_obtained(prev_move->0) is None && move_count <= 4
                && (move_obtained(tt_move) is None ==> ply <= old(self).max_ply_spec()) ==> {
                &&& ply >= 1
                &&& move_dst(prev_move->0) < 81
                &&& conts_update_fits(
                    if move_obtained(tt_move) is None {
                        quiet_update(old(self).tables(), old(self).max_ply_spec(), ply as int, teban, in_check_spec(teban, *state),
                            tt_kind, tt_move, tt_bonus(depth))
                    } else {
                        old(self).tables()
                    },
                    old(self).max_ply_spec(), ply - 1, opposite_of(teban), in_check_spec(teban, *state),
                    after_piece(opposite_of(teban), *state, prev_move->0), prev_move->0, -2142)
            },
        ensures
            final(self).wf(),
            final(self).max_ply_spec() == old(self).max_ply_spec(),
            ({
                let h1 = if move_obtained(tt_move) is None {
                    quiet_update(old(self).tables(), old(self).max_ply_spec(), ply as int, teban, in_check_spec(teban, *state),
                        tt_kind, tt_move, tt_bonus(depth))
                } else {
                    old(self).tables()
                };
                let quiet_refused = move_obtained(tt_move) is None && ply > old(self).max_ply_spec();
                if quiet_refused {
                    r is Err && final(self).tables() == h1
                } else if prev_move is Some && move_obtained(prev_move->0) is None && move_count <= 4 {
                    (r is Err <==> ply - 1 > old(self).max_ply_spec())
                    && final(self).tables() == conts_update(h1, old(self).max_ply_spec(), ply - 1, opposite_of(teban),
                        in_check_spec(teban, *state), after_piece(opposite_of(teban), *state, prev_move->0), prev_move->0, -2142)
                } else {
                    r is Ok && final(self).tables() == h1
                }
            }),
    {
        let x: i32 = 130 * (depth as i32) - 71;
        let b: i32 = if x < 1043 { x } else { 1043 };
        if tt_move.obtained().is_none() {
            let res = self.update_quiet_histories(ply, teban, state, tt_kind, tt_move, b);
            if res.is_err() {
                return res;
            }
        }
        match prev_move {
            Some(pm) => {
                if pm.obtained().is_none() && move_count <= 4 {
                    let check = Rule::in_check(teban, state);
                    let piece = moved_after_piece(teban.opposite(), state, pm);
                    return self.update_continuation_histories(ply - 1, teban.opposite(), check, piece, pm, -2142);
                }
                Ok(())
            },
            None => Ok(()),
        }
    }

    /// After the opponent's quiet move `prev_move` (of `prev_kind`) led to a fail
    /// low: with `b = fail_low_base(depth) * fail_low_scale(..)`, a continuation
    /// update of it at `ply - 1` by `b * 400 / 32768`, then its main history gets
    /// `b * 220 / 32768` and, unless it is a pawn move or promotes, its pawn history
    /// `b * 1164 / 32768`. Refused, with nothing changed, when `ply - 1` exceeds the
    /// deepest ply kept.
    pub fn update_quiet_histories_when_fail_low(&mut self, ply: usize, depth: u32, stat_score: i32, teban: Teban, state: &State,
        move_count: usize, best_value: i32, static_eval: i32, prev_static_eval: i32, prev_in_check: bool,
        prev_kind: KomaKind, prev_move: LegalMove) -> (r: Result<(), IllegalParameterError>)
        requires
            old(self).wf(),
            ou_boards_within(state.part_spec()),
            ply >= 1,
            i32::MIN <= 63 * (depth as i32) <= i32::MAX,
            i32::MIN <= 144 * (depth as i32) - 92,
            144 * (depth as i32) <= i32::MAX,
            !in_check_spec(teban, *state) ==> i32::MIN <= static_eval - 92,
            !prev_in_check ==> i32::MIN < prev_static_eval - 70,
            ({
                let b = fail_low_base(depth) * fail_low_scale(stat_score as int, depth, move_count as int,
                    in_check_spec(teban, *state), best_value as int, static_eval as int, prev_in_check, prev_static_eval as int);
                let h1 = conts_update(old(self).tables(), old(self).max_ply_spec(), ply - 1, opposite_of(teban), prev_in_check,
                    prev_kind, prev_move, div_toward_zero(b * 400, 32768));
                &&& i32::MIN <= b * 1164 <= i32::MAX
                &&& conts_update_fits(old(self).tables(), old(self).max_ply_spec(), ply - 1, opposite_of(teban), prev_in_check,
                    prev_kind, prev_move, div_toward_zero(b * 400, 32768))
                &&& ply - 1 <= old(self).max_ply_spec() ==> {
                    &&& bump_fits(h1.0, history_index(opposite_of(teban), prev_move), div_toward_zero(b * 220, 32768), 7183)
                    &&& (prev_kind != KomaKind::SFu && prev_kind != KomaKind::GFu && !move_is_nari(prev_move)) ==> {
                        &&& move_dst(prev_move) < 81
                        &&& moved_kind(opposite_of(teban), after_piece(opposite_of(teban), *state, prev_move), prev_move) != KomaKind::Blank
                        &&& bump_fits(h1.1, pawn_index(normalized_kind(opposite_of(teban), after_piece(opposite_of(teban), *state, prev_move),
                            prev_move), move_dst(prev_move) as int), div_toward_zero(b * 1164, 32768), 8192)
                    }
                }
            }),
        ensures
            final(self).wf(),
            final(self).max_ply_spec() == old(self).max_ply_spec(),
            ply - 1 > old(self).max_ply_spec() <==> r is Err,
            ({
                let b = fail_low_base(depth) * fail_low_scale(stat_score as int, depth, move_count as int,
                    in_check_spec(teban, *state), best_value as int, static_eval as int, prev_in_check, prev_static_eval as int);
                let h1 = conts_update(old(self).tables(), old(self).max_ply_spec(), ply - 1, opposite_of(teban), prev_in_check,
                    prev_kind, prev_move, div_toward_zero(b * 400, 32768));
                let main = bump(h1.0, history_index(opposite_of(teban), prev_move), div_toward_zero(b * 220, 32768), 7183);
                let pawn = if prev_kind != KomaKind::SFu && prev_kind != KomaKind::GFu && !move_is_nari(prev_move) {
                    bump(h1.1, pawn_index(normalized_kind(opposite_of(teban), after_piece(opposite_of(teban), *state, prev_move),
                        prev_move), move_dst(prev_move) as int), div_toward_zero(b * 1164, 32768), 8192)
                } else {
                    h1.1
                };
                final(self).tables() == if ply - 1 > old(self).max_ply_spec() {
                    old(self).tables()
                } else {
                    (main, pawn, h1.2, h1.3, h1.4)
                }
            }),
    {
        let check = Rule::in_check(teban, state);
        let b = fail_low_bonus(depth, stat_score, move_count, check, best_value, static_eval, prev_in_check, prev_static_eval);
        let opp = teban.opposite();
        let res = self.update_continuation_histories(ply - 1, opp, prev_in_check, prev_kind, prev_move, div_tz(b * 400, 32768));
        if res.is_err() {
            return res;
        }
        let hk = teban_to_index(opp) * 32768 + key(prev_move);
        bump_entry(&mut self.main_history, hk, div_tz(b * 220, 32768));
        if prev_kind != KomaKind::SFu && prev_kind != KomaKind::GFu && !prev_move.is_nari() {
            let piece = moved_after_piece(opp, state, prev_move);
            let k = normalize_kind(opp, piece, prev_move);
            let d = prev_move.dst() as usize;
            bump_entry(&mut self.pawn_history, k * 81 + d, div_tz(b * 1164, 32768));
        }
        Ok(())
    }

    /// Quiet updates by `bonus` of each of `quiets`, in order (`ply` is kept).
    fn update_quiets_searched(&mut self, ply: usize, teban: Teban, state: &State, quiets: &[LegalMove], malus: i32)
        requires
            old(self).wf(),
            ou_boards_within(state.part_spec()),
            ply <= old(self).max_ply_spec(),
            i32::MIN < malus,
            quiets@.len() > 0 ==> i32::MIN <= -malus * 1083 <= i32::MAX,
            quiets_fit(old(self).tables(), old(self).max_ply_spec(), ply as int, teban, in_check_spec(teban, *state), *state,
                quiets@, div_toward_zero(-malus * 1083, 1024), quiets@.len()),
        ensures
            final(self).wf(),
            final(self).max_ply_spec() == old(self).max_ply_spec(),
            final(self).tables() == quiets_update(old(self).tables(), old(self).max_ply_spec(), ply as int, teban,
                in_check_spec(teban, *state), *state, quiets@, div_toward_zero(-malus * 1083, 1024), quiets@.len()),
    {
        let ghost h0 = self.tables();
        let ghost ic = in_check_spec(teban, *state);
        let ghost b = div_toward_zero(-malus * 1083, 1024);
        let mut i: usize = 0;
        while i < quiets.len()
            invariant
                self.wf(),
                self.max_ply_spec() == old(self).max_ply_spec(),
                ou_boards_within(state.part_spec()),
                ply <= self.max_ply_spec(),
                i32::MIN < malus,
                quiets@.len() > 0 ==> i32::MIN <= -malus * 1083 <= i32::MAX,
                h0 == old(self).tables(),
                ic == in_check_spec(teban, *state),
                b == div_toward_zero(-malus * 1083, 1024),
                quiets_fit(h0, self.max_ply_spec(), ply as int, teban, ic, *state, quiets@, b, quiets@.len()),
                i <= quiets@.len(),
                self.tables() == quiets_update(h0, self.max_ply_spec(), ply as int, teban, ic, *state, quiets@, b, i as nat),
            decreases quiets@.len() - i,
        {
            proof {
                lemma_quiets_fit_prefix(h0, self.max_ply_spec(), ply as int, teban, ic, *state, quiets@, b, (i + 1) as nat, quiets@.len());
            }
            let m = quiets[i];
            let kind = match m {
                LegalMove::To(mt) => kind_on(state, mt.src()),
                LegalMove::Put(_) => KomaKind::Blank,
            };
            let qb = div_tz(-malus * 1083, 1024);
            let _ = self.update_quiet_histories(ply, teban, state, kind, m, qb);
            i = i + 1;
        }
    }

    /// Adds `-malus * 1397 / 1024` to the capture history of each of `captures` that
    /// captures a piece, by the piece on its origin.
    fn update_captures_searched(&mut self, state: &State, captures: &[LegalMoveTo], malus: i32)
        requires
            old(self).wf(),
            i32::MIN < malus,
            (exists|j: int| 0 <= j < captures@.len() && (#[trigger] captures@[j]).obtained_spec() is Some)
                ==> i32::MIN <= -malus * 1397 <= i32::MAX,
            captures_fit(old(self).capture_view(), *state, captures@, div_toward_zero(-malus * 1397, 1024), captures@.len()),
        ensures
            final(self).wf(),
            final(self).max_ply_spec() == old(self).max_ply_spec(),
            final(self).tables() == (old(self).main_view(), old(self).pawn_view(), captures_update(old(self).capture_view(),
                *state, captures@, div_toward_zero(-malus * 1397, 1024), captures@.len()), old(self).cont_view(), old(self).low_view()),
    {
        let ghost c0 = self.capture_view();
        let ghost b = div_toward_zero(-malus * 1397, 1024);
        let mut j: usize = 0;
        while j < captures.len()
            invariant
                self.wf(),
                self.max_ply_spec() == old(self).max_ply_spec(),
                self.main_view() == old(self).main_view(),
                self.pawn_view() == old(self).pawn_view(),
                self.cont_view() == old(self).cont_view(),
                self.low_view() == old(self).low_view(),
                i32::MIN < malus,
                (exists|j: int| 0 <= j < captures@.len() && (#[trigger] captures@[j]).obtained_spec() is Some)
                    ==> i32::MIN <= -malus * 1397 <= i32::MAX,
                c0 == old(self).capture_view(),
                b == div_toward_zero(-malus * 1397, 1024),
                captures_fit(c0, *state, captures@, b, captures@.len()),
                j <= captures@.len(),
                self.capture_view() == captures_update(c0, *state, captures@, b, j as nat),
            decreases captures@.len() - j,
        {
            proof {
                lemma_captures_fit_prefix(c0, *state, captures@, b, (j + 1) as nat, captures@.len());
            }
            let m = captures[j];
            match m.obtained() {
                Some(o) => {
                    assert(captures@[j as int].obtained_spec() is Some);
                    let piece = kind_on(state, m.src());
                    let k = normalize_kind(Teban::Sente, piece, LegalMove::To(m));
                    let d = m.dst() as usize;
                    let oi = o.to_index() as usize;
                    let cb = div_tz(-malus * 1397, 1024);
                    bump_entry(&mut self.capture_history, (k * 81 + d) * 14 + oi, cb);
                },
                None => {},
            }
            j = j + 1;
        }
    }

    /// The first part of `update_all_stats`: the best move, and the searched quiet
    /// moves when the best move is quiet.
    #[verifier::rlimit(40)]
    fn update_best_and_quiets(&mut self, ply: usize, teban: Teban, state: &State, bm: usize, best_move_kind: KomaKind,
        best_move: LegalMove, quiets_searched: &[LegalMove], bonus: i32, malus: i32) -> (r: Result<(), IllegalParameterError>)
        requires
            old(self).wf(),
            ou_boards_within(state.part_spec()),
            bm == normalized_kind(teban, best_move_kind, best_move),
            bm < 28,
            i32::MIN < malus,
            move_obtained(best_move) is Some ==> {
                &&& i32::MIN <= bonus * 1482 <= i32::MAX
                &&& move_dst(best_move) < 81
                &&& bump_fits(old(self).tables().2, capture_index(normalized_kind(teban, best_move_kind, best_move),
                    move_dst(best_move) as int, obtain_index(move_obtained(best_move)->0)), div_toward_zero(bonus * 1482, 1024), 10692)
            },
            move_obtained(best_move) is None ==> {
                &&& i32::MIN <= bonus * 881 <= i32::MAX
                &&& quiet_update_fits(old(self).tables(), old(self).max_ply_spec(), ply as int, teban, in_check_spec(teban, *state),
                    best_move_kind, best_move, div_toward_zero(bonus * 881, 1024))
                &&& ply <= old(self).max_ply_spec() && quiets_searched@.len() > 0 ==> i32::MIN <= -malus * 1083 <= i32::MAX
                &&& ply <= old(self).max_ply_spec() ==> quiets_fit(quiet_update(old(self).tables(), old(self).max_ply_spec(),
                    ply as int, teban, in_check_spec(teban, *state), best_move_kind, best_move, div_toward_zero(bonus * 881, 1024)),
                    old(self).max_ply_spec(), ply as int, teban, in_check_spec(teban, *state), *state, quiets_searched@,
                    div_toward_zero(-malus * 1083, 1024), quiets_searched@.len())
            },
        ensures
            final(self).wf(),
            final(self).max_ply_spec() == old(self).max_ply_spec(),
            ({
                let first = all_stats_first(old(self).tables(), old(self).max_ply_spec(), ply as int, teban, in_check_spec(teban, *state),
                    *state, best_move_kind, best_move, quiets_searched@, bonus as int, malus as int);
                &&& final(self).tables() == first.0
                &&& r is Ok <==> first.1
            }),
    {
        match best_move.obtained() {
            Some(o) => {
                let d = best_move.dst() as usize;
                let oi = o.to_index() as usize;
                bump_entry(&mut self.capture_history, (bm * 81 + d) * 14 + oi, div_tz(bonus * 1482, 1024));
                Ok(())
            },
            None => {
                let res = self.update_quiet_histories(ply, teban, state, best_move_kind, best_move, div_tz(bonus * 881, 1024));
                if res.is_err() {
                    return res;
                }
                self.update_quiets_searched(ply, teban, state, quiets_searched, malus);
                Ok(())
            },
        }
    }

    /// Updates the histories after a search found `best_move` (of `best_move_kind`):
    /// with `bonus = all_stats_bonus(..)` and `malus = all_stats_malus(..)`, a
    /// capture gets `bonus * 1482 / 1024` in the capture history; a quiet best move
    /// gets a quiet update by `bonus * 881 / 1024` and each of `quiets_searched` one
    /// by `-malus * 1083 / 1024`; when `tt_hit` and the opponent's `prev_move`
    /// captured, it gets a continuation update at `ply - 1` by `-malus * 614 / 1024`;
    /// each capture of `captures_searched` gets `-malus * 1397 / 1024` in the
    /// capture history. Refused, where an update is, when the ply exceeds the
    /// deepest ply kept.
    #[verifier::rlimit(40)]
    pub fn update_all_stats(&mut self, ply: usize, depth: u32, teban: Teban, state: &State, move_count: usize, prev_in_check: bool,
        best_move_kind: KomaKind, best_move: LegalMove, tt_move: Option<LegalMove>, quiets_searched: &[LegalMove],
        captures_searched: &[LegalMoveTo], tt_hit: bool, prev_kind: KomaKind, prev_move: Option<LegalMove>)
        -> (r: Result<(), IllegalParameterError>)
        requires
            old(self).wf(),
            ou_boards_within(state.part_spec()),
            moved_kind(teban, best_move_kind, best_move) != KomaKind::Blank,
            i32::MIN <= 121 * (depth as i32) - 77,
            121 * (depth as i32) <= i32::MAX,
            i32::MIN <= 825 * (depth as i32) - 196,
            825 * (depth as i32) <= i32::MAX,
            i32::MIN <= 16 * (move_count as i32) <= i32::MAX,
            i32::MIN < all_stats_malus(depth, move_count) <= i32::MAX,
            ({
                let h = old(self).tables();
                let mp = old(self).max_ply_spec();
                let bonus = all_stats_bonus(depth, tt_move == Some(best_move));
                let malus = all_stats_malus(depth, move_count);
                let ic = in_check_spec(teban, *state);
                let first = all_stats_first(h, mp, ply as int, teban, ic, *state, best_move_kind, best_move, quiets_searched@, bonus, malus);
                let does_prev = all_stats_does_prev(tt_hit, prev_move);
                let h2 = if does_prev {
                    conts_update(first.0, mp, ply - 1, opposite_of(teban), prev_in_check, prev_kind, prev_move->0,
                        div_toward_zero(-malus * 614, 1024))
                } else {
                    first.0
                };
                &&& move_obtained(best_move) is Some ==> {
                    &&& i32::MIN <= bonus * 1482 <= i32::MAX
                    &&& move_dst(best_move) < 81
                    &&& bump_fits(h.2, capture_index(normalized_kind(teban, best_move_kind, best_move), move_dst(best_move) as int,
                        obtain_index(move_obtained(best_move)->0)), div_toward_zero(bonus * 1482, 1024), 10692)
                }
                &&& move_obtained(best_move) is None ==> {
                    &&& i32::MIN <= bonus * 881 <= i32::MAX
                    &&& quiet_update_fits(h, mp, ply as int, teban, ic, best_move_kind, best_move, div_toward_zero(bonus * 881, 1024))
                    &&& ply <= mp && quiets_searched@.len() > 0 ==> i32::MIN <= -malus * 1083 <= i32::MAX
                    &&& ply <= mp ==> quiets_fit(quiet_update(h, mp, ply as int, teban, ic, best_move_kind, best_move,
                        div_toward_zero(bonus * 881, 1024)), mp, ply as int, teban, ic, *state, quiets_searched@,
                        div_toward_zero(-malus * 1083, 1024), quiets_searched@.len())
                }
                &&& first.1 && does_prev ==> {
                    &&& ply >= 1
                    &&& i32::MIN <= -malus * 614 <= i32::MAX
                    &&& conts_update_fits(first.0, mp, ply - 1, opposite_of(teban), prev_in_check, prev_kind, prev_move->0,
                        div_toward_zero(-malus * 614, 1024))
                }
                &&& first.1 && (does_prev ==> ply - 1 <= mp) ==> {
                    &&& (exists|j: int| 0 <= j < captures_searched@.len() && (#[trigger] captures_searched@[j]).obtained_spec() is Some)
                        ==> i32::MIN <= -malus * 1397 <= i32::MAX
                    &&& captures_fit(h2.2, *state, captures_searched@, div_toward_zero(-malus * 1397, 1024), captures_searched@.len())
                }
            }),
        ensures
            final(self).wf(),
            final(self).max_ply_spec() == old(self).max_ply_spec(),
            ({
                let h = old(self).tables();
                let mp = old(self).max_ply_spec();
                let bonus = all_stats_bonus(depth, tt_move == Some(best_move));
                let malus = all_stats_malus(depth, move_count);
                let ic = in_check_spec(teban, *state);
                let first = all_stats_first(h, mp, ply as int, teban, ic, *state, best_move_kind, best_move, quiets_searched@, bonus, malus);
                let does_prev = all_stats_does_prev(tt_hit, prev_move);
                let h2 = if does_prev {
                    conts_update(first.0, mp, ply - 1, opposite_of(teban), prev_in_check, prev_kind, prev_move->0,
                        div_toward_zero(-malus * 614, 1024))
                } else {
                    first.0
                };
                if !first.1 || (does_prev && ply - 1 > mp) {
                    r is Err && final(self).tables() == first.0
                } else {
                    r is Ok && final(self).tables() == (h2.0, h2.1, captures_update(h2.2, *state, captures_searched@,
                        div_toward_zero(-malus * 1397, 1024), captures_searched@.len()), h2.3, h2.4)
                }
            }),
    {
        let bm = normalize_kind(teban, best_move_kind, best_move);
        let is_tt: bool = match tt_move {
            Some(t) => t == best_move,
            None => false,
        };
        assert(is_tt == (tt_move == Some(best_move)));
        let x: i32 = 121 * (depth as i32) - 77;
        let bonus: i32 = (if x < 1633 { x } else { 1633 }) + if is_tt { 375 } else { 0 };
        let y: i32 = 825 * (depth as i32) - 196;
        let malus: i32 = (if y < 2159 { y } else { 2159 }) - 16 * (move_count as i32);
        let res = self.update_best_and_quiets(ply, teban, state, bm, best_move_kind, best_move, quiets_searched, bonus, malus);
        if res.is_err() {
            return res;
        }
        match prev_move {
            Some(pm) => {
                if tt_hit && pm.obtained().is_some() {
                    let res2 = self.update_continuation_histories(ply - 1, teban.opposite(), prev_in_check, prev_kind, pm,
                        div_tz(-malus * 614, 1024));
                    if res2.is_err() {
                        return res2;
                    }
                }
            },
            None => {},
        }
        self.update_captures_searched(state, captures_searched, malus);
        Ok(())
    }

    /// The capture history of `kind` (promoted when `m` promotes) at the destination
    /// of `m`, by the kind `m` captures; refused for a move that captures nothing.
    pub fn lookup_capture_history(&self, teban: Teban, kind: KomaKind, m: LegalMoveTo) -> (r: Result<i32, IllegalParameterError>)
        requires
            self.wf(),
            kind != KomaKind::Blank,
            m.obtained_spec() is Some ==> m.dst_spec() < 81,
        ensures
            m.obtained_spec() is None <==> r is Err,
            m.obtained_spec() matches Some(o) ==> r == Ok::<i32, IllegalParameterError>(self.capture_view()[capture_index(
                if m.nari_spec() { kind_index(nari_of(kind)) } else { kind_index(kind) }, m.dst_spec() as int, obtain_index(o))]),
    {
        let k = normalize_kind(teban, kind, LegalMove::To(m));
        match m.obtained() {
            Some(o) => {
                let d = m.dst() as usize;
                let oi = o.to_index() as usize;
                Ok(self.capture_history[(k * 81 + d) * 14 + oi].value())
            },
            None => Err(IllegalParameterError::new(str_to_string("This is not a move that captures a piece."))),
        }
    }
}

impl<const D: u32> From<StatsEntry<D>> for i32 {
    fn from(entry: StatsEntry<D>) -> (r: i32) {
        entry.entry
    }
}

impl<const D: u32> vstd::std_specs::convert::FromSpecImpl<StatsEntry<D>> for i32 {
    open spec fn obeys_from_spec() -> bool {
        true
    }

    open spec fn from_spec(entry: StatsEntry<D>) -> i32 {
        entry.entry_spec()
    }
}

} // verus!
