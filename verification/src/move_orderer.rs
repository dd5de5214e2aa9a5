//! What search remembers to order moves: killer moves, counter moves and
//! history tables.
use vstd::prelude::*;
use crate::error::{InvalidInputError, str_to_string};
use crate::rule::{LegalMove, move_dst, move_obtained, move_is_nari};
use crate::shogi::ObtainKind;
use crate::rule::state::{State, square_kind};
use crate::rule::mate::ou_boards_within;
use crate::rule::Rule;
use crate::shogi::{KomaKind, Teban, kind_index, nari_of, kind_of_put, mochigoma_index, opposite_of};
use crate::stats::{div_tz, StatsEntry, entries, bump, bump_fits, filled, bump_entry, kind_on, teban_index, cont_index, in_check_spec, div_toward_zero, cont_reach};
use crate::rule::oute::{legal_on_board, oute_spec};
use crate::see::{calc_see, see_spec};

verus! {

/// The scale of history bonuses.
pub const HISTORY_SCALE: i32 = 256;

/// The order in which moves are tried, from the lowest priority up.
#[derive(Debug, Clone, Copy, PartialEq, Eq, PartialOrd, Ord)]
pub enum MoveOrder {
    BadCaptures(i32),
    Quiet(i32),
    Checks,
    KillerMoves(usize),
    GoodCaptures(i32),
    PV,
    TT,
}

/// How a static exchange evaluation acts on the score of a quiet move.
pub trait QuietSeeEffect {
    /// Inputs on which `effect` neither overflows nor divides by zero.
    spec fn effect_requires(teban: Teban, state: State, m: LegalMove, score: i32) -> bool;

    /// What `effect` returns.
    spec fn effect_spec(teban: Teban, state: State, m: LegalMove, score: i32) -> int;

    /// What `see` returns.
    spec fn see_of(teban: Teban, state: State, m: LegalMove) -> int;

    /// The score after the evaluation acted on `score`.
    fn effect(teban: Teban, state: &State, m: LegalMove, score: i32) -> (r: i32)
        requires
            legal_on_board(m),
            Self::effect_requires(teban, *state, m, score),
        ensures
            r == Self::effect_spec(teban, *state, m, score),
    ;

    /// The evaluation of `m`.
    fn see(teban: Teban, state: &State, m: LegalMove) -> (r: i32)
        requires
            legal_on_board(m),
        ensures
            r == Self::see_of(teban, *state, m),
    ;
}

/// Leaves scores as they are and evaluates every move as 0.
#[derive(Debug, Clone, Copy)]
pub struct UnusedQuietSee;

impl QuietSeeEffect for UnusedQuietSee {
    open spec fn effect_requires(teban: Teban, state: State, m: LegalMove, score: i32) -> bool {
        true
    }

    open spec fn effect_spec(teban: Teban, state: State, m: LegalMove, score: i32) -> int {
        score as int
    }

    open spec fn see_of(teban: Teban, state: State, m: LegalMove) -> int {
        0
    }

    fn effect(teban: Teban, state: &State, m: LegalMove, score: i32) -> (r: i32) {
        score
    }

    fn see(teban: Teban, state: &State, m: LegalMove) -> (r: i32) {
        0
    }
}

/// Adds the exchange evaluation to a score scaled by `FACTOR`, then divides
/// by `FACTOR` (rounding toward zero).
#[derive(Debug, Clone, Copy)]
pub struct DivideFactor<const FACTOR: usize>;

impl<const FACTOR: usize> DivideFactor<FACTOR> {
    /// Inputs on which `effect` neither overflows nor divides by zero.
    pub open spec fn effect_requires(teban: Teban, state: State, m: LegalMove, score: i32) -> bool {
        &&& 0 < FACTOR <= i32::MAX
        &&& i32::MIN <= score * FACTOR <= i32::MAX
        &&& i32::MIN <= score * FACTOR + see_spec(teban, state, m) <= i32::MAX
    }

    /// The score after the evaluation acted on `score`: `(score * FACTOR + see) / FACTOR`.
    pub fn effect(teban: Teban, state: &State, m: LegalMove, score: i32) -> (r: i32)
        requires
            legal_on_board(m),
            Self::effect_requires(teban, *state, m, score),
        ensures
            r == div_toward_zero(score * FACTOR + see_spec(teban, *state, m), FACTOR as int),
    {
        divide_effect(teban, state, m, score, FACTOR as i32)
    }

    /// The exchange evaluation of `m`.
    pub fn see(teban: Teban, state: &State, m: LegalMove) -> (r: i32)
        requires
            legal_on_board(m),
        ensures
            r == see_spec(teban, *state, m),
    {
        see_of_move(teban, state, m)
    }
}

/// `(score * f + see) / f`, rounded toward zero, with `see` the exchange evaluation of `m`.
fn divide_effect(teban: Teban, state: &State, m: LegalMove, score: i32, f: i32) -> (r: i32)
    requires
        legal_on_board(m),
        f > 0,
        i32::MIN <= score * f <= i32::MAX,
        i32::MIN <= score * f + see_spec(teban, *state, m) <= i32::MAX,
    ensures
        r == div_toward_zero(score * f + see_spec(teban, *state, m), f as int),
{
    let x: i32 = score * f + calc_see(teban, state, m);
    div_tz(x, f)
}

/// The exchange evaluation of `m`.
fn see_of_move(teban: Teban, state: &State, m: LegalMove) -> (r: i32)
    requires
        legal_on_board(m),
    ensures
        r == see_spec(teban, *state, m),
{
    calc_see(teban, state, m)
}

/// The index of the kind moved by `m` of side `teban` (promoted when `m`
/// promotes), or `None` when the piece on the origin is not one of `teban`.
pub open spec fn piece_index_of(teban: Teban, state: State, m: LegalMove) -> Option<int> {
    match m {
        LegalMove::To(mt) => {
            let k = square_kind(state.banmen_spec(), mt.src_spec() as int);
            let ok = if teban == Teban::Sente {
                kind_index(k) < 14
            } else {
                14 <= kind_index(k) < 28
            };
            if !ok {
                None
            } else if mt.nari_spec() {
                Some(kind_index(nari_of(k)))
            } else {
                Some(kind_index(k))
            }
        },
        LegalMove::Put(mp) => Some(kind_index(kind_of_put(teban, mp.kind_spec()))),
    }
}

/// The index of kind index `k` among the kinds of side `teban`, or `None` when `k`
/// is not one of `teban`.
pub open spec fn piece_us_index_of(teban: Teban, k: int) -> Option<int> {
    if k == 28 {
        None
    } else if teban == Teban::Sente && k >= 14 {
        None
    } else if teban == Teban::Gote && k < 14 {
        None
    } else if teban == Teban::Gote {
        Some(k - 14)
    } else {
        Some(k)
    }
}

/// The piece and square of the last of `history`, when it holds one.
pub open spec fn last_move_of(history: Seq<Option<(u8, u8)>>) -> Option<(u8, u8)> {
    if history.len() > 0 {
        history.last()
    } else {
        None
    }
}

/// Place of kind `k` and square `sq` in the history and piece-to-square tables.
pub open spec fn kind_square_index(k: int, sq: int) -> int {
    k * 81 + sq
}

/// Place in the follow-up table of the previous move's piece `p` and square `t`
/// with this move's piece `k` and square `sq`.
pub open spec fn follow_index(p: int, t: int, k: int, sq: int) -> int {
    ((p * 81 + t) * 14 + k) * 81 + sq
}

/// Place in the counter-move table of side `side`, piece `k` and square `sq`.
pub open spec fn counter_index(side: int, k: int, sq: int) -> int {
    (side * 14 + k) * 81 + sq
}

/// Where the counter move to `prev_move` (of `prev_kind`, `Blank` for a drop)
/// answered by side `teban` is kept: `Err(())` when `prev_kind` belongs to
/// `teban`, `Ok(None)` when a move on the board has `Blank` as its kind.
pub open spec fn counter_place(teban: Teban, prev_move: LegalMove, prev_kind: KomaKind) -> Result<Option<int>, ()> {
    let side = teban_index(opposite_of(teban));
    match prev_move {
        LegalMove::To(mv) => {
            if prev_kind == KomaKind::Blank {
                Ok(None)
            } else if teban == Teban::Sente && kind_index(prev_kind) < 14 {
                Err(())
            } else if teban == Teban::Gote && kind_index(prev_kind) >= 14 {
                Err(())
            } else if teban == Teban::Sente {
                Ok(Some(counter_index(side, kind_index(prev_kind) - 14, mv.dst_spec() as int)))
            } else {
                Ok(Some(counter_index(side, kind_index(prev_kind), mv.dst_spec() as int)))
            }
        },
        LegalMove::Put(mv) => Ok(Some(counter_index(side, mochigoma_index(mv.kind_spec()), mv.dst_spec() as int))),
    }
}

/// The place where the counter move is kept, if any (see `counter_place`).
pub open spec fn counter_slot(teban: Teban, prev_move: LegalMove, prev_kind: KomaKind) -> Option<int> {
    match counter_place(teban, prev_move, prev_kind) {
        Ok(Some(i)) => Some(i),
        _ => None,
    }
}

/// The killer moves of all plies: newest, older, and how many each ply holds.
pub type Killers = (Seq<Option<LegalMove>>, Seq<Option<LegalMove>>, Seq<u8>);

/// The killers after `m` is kept at ply `p`: it becomes the newest, the newest
/// before it the older one (when there was one), and the count grows up to two.
pub open spec fn killers_after(k: Killers, p: int, m: LegalMove) -> Killers {
    let u = k.2[p];
    (k.0.update(p, Some(m)), if u >= 1 { k.1.update(p, k.0[p]) } else { k.1 }, k.2.update(p, if u < 2 { (u + 1) as u8 } else { u }))
}

/// Whether `m` is a killer move of ply `p`.
pub open spec fn is_killer_in(k: Killers, p: int, m: LegalMove) -> bool {
    k.2[p] != 0 && (k.0[p] == Some(m) || k.1[p] == Some(m))
}

/// The counter moves after `m` is kept as the answer of side `teban` to
/// `prev_move` (of `prev_kind`).
pub open spec fn counters_after(c: Seq<Option<LegalMove>>, teban: Teban, prev_move: LegalMove, prev_kind: KomaKind,
    m: LegalMove) -> Seq<Option<LegalMove>> {
    match counter_slot(teban, prev_move, prev_kind) {
        Some(i) => c.update(i, Some(m)),
        None => c,
    }
}

/// Whether `m` is the counter move of side `teban` to `prev_move` (of `prev_kind`),
/// when `counter_place` does not refuse them.
pub open spec fn is_counter_in(c: Seq<Option<LegalMove>>, teban: Teban, prev_move: LegalMove, prev_kind: KomaKind,
    m: LegalMove) -> bool {
    &&& quiet_unpromoted(m)
    &&& counter_slot(teban, prev_move, prev_kind) matches Some(i) && c[i] == Some(m)
}

/// The rank of each kind of `MoveOrder`, from the lowest priority up.
pub open spec fn order_rank(o: MoveOrder) -> int {
    match o {
        MoveOrder::BadCaptures(_) => 0,
        MoveOrder::Quiet(_) => 1,
        MoveOrder::Checks => 2,
        MoveOrder::KillerMoves(_) => 3,
        MoveOrder::GoodCaptures(_) => 4,
        MoveOrder::PV => 5,
        MoveOrder::TT => 6,
    }
}

/// The value an order carries within its kind.
pub open spec fn order_value(o: MoveOrder) -> int {
    match o {
        MoveOrder::BadCaptures(v) => v as int,
        MoveOrder::Quiet(v) => v as int,
        MoveOrder::KillerMoves(v) => v as int,
        MoveOrder::GoodCaptures(v) => v as int,
        _ => 0,
    }
}

/// `a` comes before `b` or with it: a higher kind, or the same kind with a
/// value no lower (the order `MoveOrder` derives).
pub open spec fn order_ge(a: MoveOrder, b: MoveOrder) -> bool {
    order_rank(a) > order_rank(b) || (order_rank(a) == order_rank(b) && order_value(a) >= order_value(b))
}

/// The sum, over the earlier plies `ply - 1 - i` for `i < n` except `i == 4`,
/// of the continuation history at kind `pi` and square `to`, divided by 32.
pub open spec fn cont_score(cont: Seq<i32>, ply: int, pi: int, to: int, n: int) -> int
    decreases n,
{
    if n <= 0 {
        0
    } else {
        cont_score(cont, ply, pi, to, n - 1) + (if n - 1 == 4 { 0int } else {
            div_toward_zero(cont[cont_index(ply - n, pi, to)] as int, 32)
        })
    }
}

/// The index of the kind of the previous move among those of its side in
/// the counter-move table (14 for none).
pub open spec fn prev_kind_index(teban: Teban, prev_kind: KomaKind) -> int {
    if opposite_of(teban) == Teban::Sente {
        kind_index(prev_kind)
    } else if 14 <= kind_index(prev_kind) < 28 {
        kind_index(prev_kind) - 14
    } else {
        14
    }
}

/// A move that may be kept as a killer or counter move: it neither captures nor promotes.
pub open spec fn quiet_unpromoted(m: LegalMove) -> bool {
    move_obtained(m) is None && !move_is_nari(m)
}

/// Index of the first continuation row an update reaches: the rows are taken
/// from the first `min(ply + 1, max_ply + 1)`, the last of them skipped.
pub open spec fn mo_cont_top(ply: int, max_ply: int) -> int {
    (if ply < max_ply { ply + 1 } else { max_ply + 1 }) - 2
}

/// How many continuation rows an improvement reaches: at most six, at most two in check.
pub open spec fn mo_cont_count(ply: int, max_ply: int, in_check: bool) -> int {
    let avail = mo_cont_top(ply, max_ply) + 1;
    let c = if avail < 6 { avail } else { 6 };
    if in_check && c > 2 {
        2
    } else {
        c
    }
}

/// The bonus of the `i`-th row: `bonus >> i`, plus 88 at the first.
pub open spec fn mo_step_bonus(bonus: i32, i: int) -> int {
    (bonus >> (i as u32)) + (if i == 0 { 88int } else { 0int })
}

/// The continuation table after the first `n` rows of an improvement.
pub open spec fn mo_conts_after(v: Seq<i32>, top: int, k: int, sq: int, bonus: i32, n: nat) -> Seq<i32>
    decreases n,
{
    if n == 0 {
        v
    } else {
        bump(mo_conts_after(v, top, k, sq, bonus, (n - 1) as nat), cont_index(top - (n - 1), k, sq), mo_step_bonus(bonus, n - 1), 16384)
    }
}

/// The first `n` rows of an improvement stay within `i32`.
pub open spec fn mo_conts_fit(v: Seq<i32>, top: int, k: int, sq: int, bonus: i32, n: nat) -> bool
    decreases n,
{
    if n == 0 {
        true
    } else {
        &&& mo_conts_fit(v, top, k, sq, bonus, (n - 1) as nat)
        &&& i32::MIN <= mo_step_bonus(bonus, n - 1) <= i32::MAX
        &&& bump_fits(mo_conts_after(v, top, k, sq, bonus, (n - 1) as nat), cont_index(top - (n - 1), k, sq), mo_step_bonus(bonus, n - 1), 16384)
    }
}

proof fn lemma_mo_conts_fit_prefix(v: Seq<i32>, top: int, k: int, sq: int, bonus: i32, i: nat, n: nat)
    requires
        i <= n,
        mo_conts_fit(v, top, k, sq, bonus, n),
    ensures
        mo_conts_fit(v, top, k, sq, bonus, i),
    decreases n,
{
    if i < n {
        lemma_mo_conts_fit_prefix(v, top, k, sq, bonus, i, (n - 1) as nat);
    }
}

proof fn lemma_mo_conts_len(v: Seq<i32>, top: int, k: int, sq: int, bonus: i32, n: nat)
    requires
        mo_conts_fit(v, top, k, sq, bonus, n),
    ensures
        mo_conts_after(v, top, k, sq, bonus, n).len() == v.len(),
    decreases n,
{
    if n > 0 {
        lemma_mo_conts_len(v, top, k, sq, bonus, (n - 1) as nat);
    }
}

/// A piece moved by its own side keeps its side when it promotes.
proof fn lemma_piece_index_sides(teban: Teban, state: State, m: LegalMove)
    ensures
        piece_index_of(teban, state, m) matches Some(pi) ==> 0 <= pi < 28 && piece_us_index_of(teban, pi) is Some
            && 0 <= piece_us_index_of(teban, pi)->0 < 14,
{
}

/// Once `m` is kept as a killer move of a ply, it is a killer move of that ply;
/// the newest killer before it, if any, stays one too.
pub proof fn law_killer_kept(k: Killers, p: int, m: LegalMove)
    requires
        0 <= p < k.0.len(),
        k.0.len() == k.1.len(),
        k.1.len() == k.2.len(),
        k.2[p] <= 2,
    ensures
        is_killer_in(killers_after(k, p, m), p, m),
        k.2[p] >= 1 ==> (k.0[p] matches Some(old_m) ==> is_killer_in(killers_after(k, p, m), p, old_m)),
        forall|q: int| 0 <= q < k.0.len() && q != p ==> (is_killer_in(killers_after(k, p, m), q, m)
            <==> is_killer_in(k, q, m)),
{
}

/// Once `m` is kept as the counter move to a previous move, it is the counter
/// move to it; a move on the board given with `Blank` keeps nothing.
pub proof fn law_counter_kept(c: Seq<Option<LegalMove>>, teban: Teban, prev_move: LegalMove, prev_kind: KomaKind, m: LegalMove)
    requires
        quiet_unpromoted(m),
        counter_slot(teban, prev_move, prev_kind) matches Some(i) ==> 0 <= i < c.len(),
    ensures
        counter_slot(teban, prev_move, prev_kind) is Some ==> is_counter_in(counters_after(c, teban, prev_move, prev_kind, m),
            teban, prev_move, prev_kind, m),
        counter_slot(teban, prev_move, prev_kind) is None ==> !is_counter_in(counters_after(c, teban, prev_move, prev_kind, m),
            teban, prev_move, prev_kind, m),
{
}

/// Whether `a` comes before `b` or with it (see `order_ge`).
fn order_ge_exec(a: MoveOrder, b: MoveOrder) -> (r: bool)
    ensures
        r == order_ge(a, b),
{
    let ra: u8 = match a {
        MoveOrder::BadCaptures(_) => 0,
        MoveOrder::Quiet(_) => 1,
        MoveOrder::Checks => 2,
        MoveOrder::KillerMoves(_) => 3,
        MoveOrder::GoodCaptures(_) => 4,
        MoveOrder::PV => 5,
        MoveOrder::TT => 6,
    };
    let rb: u8 = match b {
        MoveOrder::BadCaptures(_) => 0,
        MoveOrder::Quiet(_) => 1,
        MoveOrder::Checks => 2,
        MoveOrder::KillerMoves(_) => 3,
        MoveOrder::GoodCaptures(_) => 4,
        MoveOrder::PV => 5,
        MoveOrder::TT => 6,
    };
    if ra != rb {
        return ra > rb;
    }
    match (a, b) {
        (MoveOrder::BadCaptures(x), MoveOrder::BadCaptures(y)) => x >= y,
        (MoveOrder::Quiet(x), MoveOrder::Quiet(y)) => x >= y,
        (MoveOrder::KillerMoves(x), MoveOrder::KillerMoves(y)) => x >= y,
        (MoveOrder::GoodCaptures(x), MoveOrder::GoodCaptures(y)) => x >= y,
        _ => true,
    }
}

/// The moves of ordered entries.
pub open spec fn entry_moves(s: Seq<(MoveOrder, LegalMove, i32)>) -> Seq<LegalMove> {
    s.map_values(|e: (MoveOrder, LegalMove, i32)| e.1)
}

/// The moves of an ordering's result.
pub open spec fn result_moves(s: Seq<(LegalMove, i32)>) -> Seq<LegalMove> {
    s.map_values(|e: (LegalMove, i32)| e.0)
}

/// Inserts `e` into `sorted`, kept highest first, after every entry that
/// comes before it or with it; the place it took.
fn insert_ordered(sorted: &mut Vec<(MoveOrder, LegalMove, i32)>, e: (MoveOrder, LegalMove, i32)) -> (pos: usize)
    requires
        forall|a: int, b: int| 0 <= a < b < old(sorted)@.len() ==> order_ge(#[trigger] old(sorted)@[a].0, #[trigger] old(sorted)@[b].0),
    ensures
        pos <= old(sorted)@.len(),
        final(sorted)@ == old(sorted)@.insert(pos as int, e),
        entry_moves(final(sorted)@).to_multiset() == entry_moves(old(sorted)@).to_multiset().insert(e.1),
        forall|a: int, b: int| 0 <= a < b < final(sorted)@.len() ==> order_ge(#[trigger] final(sorted)@[a].0, #[trigger] final(sorted)@[b].0),
{
    let o = e.0;
    let mut pos: usize = 0;
    while pos < sorted.len()
        invariant
            pos <= sorted@.len(),
            sorted@ == old(sorted)@,
            forall|k: int| 0 <= k < pos ==> order_ge(#[trigger] sorted@[k].0, o),
        ensures
            pos <= sorted@.len(),
            sorted@ == old(sorted)@,
            forall|k: int| 0 <= k < pos ==> order_ge(#[trigger] sorted@[k].0, o),
            pos < sorted@.len() ==> !order_ge(sorted@[pos as int].0, o),
        decreases sorted@.len() - pos,
    {
        if !order_ge_exec(sorted[pos].0, o) {
            break;
        }
        pos = pos + 1;
    }
    let ghost before = sorted@;
    sorted.insert(pos, e);
    proof {
        assert(entry_moves(sorted@) =~= entry_moves(before).insert(pos as int, e.1));
        vstd::seq_lib::to_multiset_insert(entry_moves(before), pos as int, e.1);
        assert forall|a: int, b: int| 0 <= a < b < sorted@.len() implies order_ge(#[trigger] sorted@[a].0, #[trigger] sorted@[b].0) by {
            if b < pos {
                assert(sorted@[a] == before[a] && sorted@[b] == before[b]);
            } else if b == pos {
                assert(sorted@[a] == before[a]);
            } else if a == pos {
                assert(sorted@[b] == before[b - 1]);
                assert(!order_ge(before[pos as int].0, o));
                if pos as int != b - 1 {
                    assert(order_ge(before[pos as int].0, before[b - 1].0));
                }
            } else if a < pos {
                assert(sorted@[a] == before[a] && sorted@[b] == before[b - 1]);
            } else {
                assert(sorted@[a] == before[a - 1] && sorted@[b] == before[b - 1]);
            }
        }
    }
    pos
}

/// Whether `slot` holds `m`.
fn is_some_move(slot: Option<LegalMove>, m: LegalMove) -> (r: bool)
    ensures
        r == (slot == Some(m)),
{
    match slot {
        Some(k) => k == m,
        None => false,
    }
}

/// Row of side `t`.
fn teban_to_index_mo(t: Teban) -> (r: usize)
    ensures
        r == teban_index(t),
        r < 2,
{
    match t {
        Teban::Sente => 0,
        Teban::Gote => 1,
    }
}

/// See `MoveOrderer::calc_piece_index`.
fn piece_index(teban: Teban, state: &State, m: LegalMove) -> (r: Result<usize, InvalidInputError>)
    requires
        m matches LegalMove::To(mt) ==> mt.src_spec() < 81,
    ensures
        r is Ok <==> piece_index_of(teban, *state, m) is Some,
        r matches Ok(v) ==> v == piece_index_of(teban, *state, m)->0,
{
    match m {
        LegalMove::To(mt) => {
            let kind = kind_on(state, mt.src());
            let ki = kind.to_index();
            if teban == Teban::Sente {
                if ki >= 14 {
                    return Err(InvalidInputError(str_to_string("The piece type of the piece moved during Sente's turn is Gote.")));
                }
            } else {
                if ki < 14 {
                    return Err(InvalidInputError(str_to_string("The piece type of the piece moved during Gote's turn is Sente.")));
                } else if ki == 28 {
                    return Err(InvalidInputError(str_to_string("There are no pieces on the move origin.")));
                }
            }
            if mt.is_nari() {
                Ok(kind.to_nari().to_index())
            } else {
                Ok(ki)
            }
        },
        LegalMove::Put(mp) => Ok(KomaKind::from_put(teban, mp.kind()).to_index()),
    }
}

/// See `MoveOrderer::calc_piece_us_index`.
fn piece_us_index(teban: Teban, kind: usize) -> (r: Result<usize, InvalidInputError>)
    ensures
        r is Ok <==> piece_us_index_of(teban, kind as int) is Some,
        r matches Ok(v) ==> v == piece_us_index_of(teban, kind as int)->0,
{
    if kind == 28 {
        Err(InvalidInputError(str_to_string("There are no pieces on the move origin.")))
    } else if teban == Teban::Sente && kind >= 14 {
        Err(InvalidInputError(str_to_string("The piece type of the piece moved during Sente's turn is Gote.")))
    } else if teban == Teban::Gote && kind < 14 {
        Err(InvalidInputError(str_to_string("The piece type of the piece moved during Gote's turn is Sente.")))
    } else if teban == Teban::Gote {
        Ok(kind - 14)
    } else {
        Ok(kind)
    }
}

/// `n` empty move slots.
fn nones(n: usize) -> (r: Vec<Option<LegalMove>>)
    ensures
        r@ == Seq::new(n as nat, |i: int| None::<LegalMove>),
{
    let mut v: Vec<Option<LegalMove>> = Vec::new();
    let mut i: usize = 0;
    while i < n
        invariant
            i <= n,
            v@ == Seq::new(i as nat, |j: int| None::<LegalMove>),
        decreases n - i,
    {
        v.push(None);
        i = i + 1;
        proof {
            assert(v@ =~= Seq::new(i as nat, |j: int| None::<LegalMove>));
        }
    }
    v
}

/// `n` zero counts.
fn zeros(n: usize) -> (r: Vec<u8>)
    ensures
        r@ == Seq::new(n as nat, |i: int| 0u8),
{
    let mut v: Vec<u8> = Vec::new();
    let mut i: usize = 0;
    while i < n
        invariant
            i <= n,
            v@ == Seq::new(i as nat, |j: int| 0u8),
        decreases n - i,
    {
        v.push(0);
        i = i + 1;
        proof {
            assert(v@ =~= Seq::new(i as nat, |j: int| 0u8));
        }
    }
    v
}

/// Killer moves, counter moves and history tables for ordering moves in search.
pub struct MoveOrderer {
    killer_first: Vec<Option<LegalMove>>,
    killer_second: Vec<Option<LegalMove>>,
    usage_killer_moves: Vec<u8>,
    history: Vec<StatsEntry<16384>>,
    follow_up_history: Vec<StatsEntry<16384>>,
    continuation_history: Vec<StatsEntry<16384>>,
    piece_to_square: Vec<StatsEntry<16384>>,
    counter_moves: Vec<Option<LegalMove>>,
    max_ply: usize,
}

impl MoveOrderer {
    /// The deepest ply kept.
    pub closed spec fn max_ply_spec(&self) -> int {
        self.max_ply as int
    }

    /// The newest killer move of each ply.
    pub closed spec fn killer_first_view(&self) -> Seq<Option<LegalMove>> {
        self.killer_first@
    }

    /// The older killer move of each ply.
    pub closed spec fn killer_second_view(&self) -> Seq<Option<LegalMove>> {
        self.killer_second@
    }

    /// How many killer moves each ply holds (at most two).
    pub closed spec fn usage_view(&self) -> Seq<u8> {
        self.usage_killer_moves@
    }

    /// History by kind and destination (`kind_square_index`).
    pub closed spec fn history_view(&self) -> Seq<i32> {
        entries(self.history@)
    }

    /// Follow-up history (`follow_index`).
    pub closed spec fn follow_view(&self) -> Seq<i32> {
        entries(self.follow_up_history@)
    }

    /// Continuation history by ply, kind and destination (`cont_index`).
    pub closed spec fn cont_view(&self) -> Seq<i32> {
        entries(self.continuation_history@)
    }

    /// History by the kind among those of its side and destination (`kind_square_index`).
    pub closed spec fn p2s_view(&self) -> Seq<i32> {
        entries(self.piece_to_square@)
    }

    /// Counter moves (`counter_index`).
    pub closed spec fn counter_view(&self) -> Seq<Option<LegalMove>> {
        self.counter_moves@
    }

    /// 64 when `m` is the counter move kept for the previous move, else 0.
    pub open spec fn counter_bonus(&self, teban: Teban, m: LegalMove, prev_move: Option<LegalMove>, prev_kind: KomaKind) -> int {
        if prev_kind != KomaKind::Blank && prev_move is Some
            && self.counter_view()[counter_index(teban_index(opposite_of(teban)), prev_kind_index(teban, prev_kind),
                move_dst(prev_move->0) as int)] == Some(m) {
            64
        } else {
            0
        }
    }

    /// The score of the quiet move `m` of side `teban`: twice its history, twice
    /// its piece-to-square history, its follow-up history after the last of
    /// `history`, its continuation histories of the earlier plies (the fifth
    /// left out) divided by 32, and the counter-move bonus.
    pub open spec fn quiet_score(&self, teban: Teban, state: State, m: LegalMove, ply: int, prev_move: Option<LegalMove>,
        prev_kind: KomaKind, history: Seq<Option<(u8, u8)>>) -> int {
        let pi = piece_index_of(teban, state, m)->0;
        let us = piece_us_index_of(teban, pi)->0;
        let to = move_dst(m) as int;
        2 * self.history_view()[kind_square_index(pi, to)]
            + 2 * self.p2s_view()[kind_square_index(us, to)]
            + (match last_move_of(history) {
                Some(pt) => self.follow_view()[follow_index(pt.0 as int, pt.1 as int, us, to)] as int,
                None => 0int,
            })
            + cont_score(self.cont_view(), ply, pi, to, cont_reach(ply))
            + self.counter_bonus(teban, m, prev_move, prev_kind)
    }

    /// The order of `m` and its exchange evaluation, `None` when the piece it
    /// moves is not one of `teban` (for a quiet move that needs its history):
    /// the transposition-table move, then the principal variation move (both
    /// with the evaluation of a capture), captures (good when the evaluation is
    /// not below 0), checks, the newest then the older killer move of the ply,
    /// and the other quiet moves by `quiet_score` as `E` acts on it; moves that
    /// are not captures are evaluated by `E`.
    #[verifier::opaque]
    pub open spec fn move_order<E: QuietSeeEffect>(&self, teban: Teban, state: State, m: LegalMove, ply: int, tt_move: Option<LegalMove>,
        pv: Option<LegalMove>, prev_move: Option<LegalMove>, prev_kind: KomaKind, history: Seq<Option<(u8, u8)>>)
        -> Option<(MoveOrder, int)> {
        let cap_see = if move_obtained(m) is Some { see_spec(teban, state, m) } else { 0 };
        if tt_move == Some(m) {
            Some((MoveOrder::TT, cap_see))
        } else if pv == Some(m) {
            Some((MoveOrder::PV, cap_see))
        } else if m is To && move_obtained(m) is Some {
            let v = see_spec(teban, state, m);
            if v >= 0 {
                Some((MoveOrder::GoodCaptures(v as i32), v))
            } else {
                Some((MoveOrder::BadCaptures(v as i32), v))
            }
        } else if oute_spec(state, teban, m) {
            Some((MoveOrder::Checks, E::see_of(teban, state, m)))
        } else if self.killer_first_view()[ply] == Some(m) {
            Some((MoveOrder::KillerMoves(1), E::see_of(teban, state, m)))
        } else if self.killer_second_view()[ply] == Some(m) {
            Some((MoveOrder::KillerMoves(0), E::see_of(teban, state, m)))
        } else if piece_index_of(teban, state, m) is None {
            None
        } else {
            Some((MoveOrder::Quiet(E::effect_spec(teban, state, m,
                self.quiet_score(teban, state, m, ply, prev_move, prev_kind, history) as i32) as i32), E::see_of(teban, state, m)))
        }
    }

    /// Whether `m` gets a quiet score in `move_order`.
    #[verifier::opaque]
    pub open spec fn reaches_quiet(&self, teban: Teban, state: State, m: LegalMove, ply: int, tt_move: Option<LegalMove>,
        pv: Option<LegalMove>) -> bool {
        &&& tt_move != Some(m)
        &&& pv != Some(m)
        &&& !(m is To && move_obtained(m) is Some)
        &&& !oute_spec(state, teban, m)
        &&& self.killer_first_view()[ply] != Some(m)
        &&& self.killer_second_view()[ply] != Some(m)
        &&& piece_index_of(teban, state, m) is Some
    }

    /// Whether `prev_kind` does not belong to `teban` (a `Blank` is accepted).
    pub open spec fn prev_kind_ok(teban: Teban, prev_kind: KomaKind) -> bool {
        &&& !(opposite_of(teban) == Teban::Sente && 14 <= kind_index(prev_kind) < 28)
        &&& !(opposite_of(teban) == Teban::Gote && kind_index(prev_kind) < 14)
    }

    /// The killer moves of all plies.
    pub open spec fn killers(&self) -> Killers {
        (self.killer_first_view(), self.killer_second_view(), self.usage_view())
    }

    /// The tables have their sizes and no ply holds more than two killer moves.
    pub open spec fn wf(&self) -> bool {
        &&& self.killer_first_view().len() == self.max_ply_spec() + 1
        &&& self.killer_second_view().len() == self.max_ply_spec() + 1
        &&& self.usage_view().len() == self.max_ply_spec() + 1
        &&& forall|p: int| 0 <= p <= self.max_ply_spec() ==> #[trigger] self.usage_view()[p] <= 2
        &&& self.history_view().len() == 2268
        &&& self.follow_view().len() == 1285956
        &&& self.cont_view().len() == (self.max_ply_spec() + 1) * 2268
        &&& self.p2s_view().len() == 1134
        &&& self.counter_view().len() == 2268
    }

    /// Empty tables for plies up to `max_ply`.
    pub fn new(max_ply: usize) -> (r: MoveOrderer)
        requires
            (max_ply + 1) * 2268 <= usize::MAX,
        ensures
            r.wf(),
            r.max_ply_spec() == max_ply,
            r.killer_first_view() == Seq::new((max_ply + 1) as nat, |i: int| None::<LegalMove>),
            r.killer_second_view() == Seq::new((max_ply + 1) as nat, |i: int| None::<LegalMove>),
            r.usage_view() == Seq::new((max_ply + 1) as nat, |i: int| 0u8),
            r.history_view() == Seq::new(2268, |i: int| 0i32),
            r.follow_view() == Seq::new(1285956, |i: int| 0i32),
            r.cont_view() == Seq::new(((max_ply + 1) * 2268) as nat, |i: int| 0i32),
            r.p2s_view() == Seq::new(1134, |i: int| 0i32),
            r.counter_view() == Seq::new(2268, |i: int| None::<LegalMove>),
    {
        MoveOrderer {
            killer_first: nones(max_ply + 1),
            killer_second: nones(max_ply + 1),
            usage_killer_moves: zeros(max_ply + 1),
            history: filled(2268, 0),
            follow_up_history: filled(1285956, 0),
            continuation_history: filled((max_ply + 1) * 2268, 0),
            piece_to_square: filled(1134, 0),
            counter_moves: nones(2268),
            max_ply: max_ply,
        }
    }

    /// The index of the kind `m` of side `teban` moves (promoted when it promotes);
    /// refused when the piece on the origin is not one of `teban`.
    pub fn calc_piece_index(&self, teban: Teban, state: &State, m: LegalMove) -> (r: Result<usize, InvalidInputError>)
        requires
            m matches LegalMove::To(mt) ==> mt.src_spec() < 81,
        ensures
            r is Ok <==> piece_index_of(teban, *state, m) is Some,
            r matches Ok(v) ==> v == piece_index_of(teban, *state, m)->0,
    {
        piece_index(teban, state, m)
    }

    /// The index of kind index `kind` among the kinds of side `teban`; refused when
    /// `kind` is not one of `teban`.
    pub fn calc_piece_us_index(&self, teban: Teban, kind: usize) -> (r: Result<usize, InvalidInputError>)
        ensures
            r is Ok <==> piece_us_index_of(teban, kind as int) is Some,
            r matches Ok(v) ==> v == piece_us_index_of(teban, kind as int)->0,
    {
        piece_us_index(teban, kind)
    }

    /// The history of the kind `m` of side `teban` moves at its destination;
    /// refused for a capture and when the piece moved is not one of `teban`.
    pub fn look_up_history(&self, teban: Teban, state: &State, m: LegalMove) -> (r: Result<i32, InvalidInputError>)
        requires
            self.wf(),
            move_obtained(m) is None ==> (m matches LegalMove::To(mt) ==> mt.src_spec() < 81),
            move_obtained(m) is None && piece_index_of(teban, *state, m) is Some ==> move_dst(m) < 81,
        ensures
            r is Ok <==> move_obtained(m) is None && piece_index_of(teban, *state, m) is Some,
            r matches Ok(v) ==> v == self.history_view()[kind_square_index(piece_index_of(teban, *state, m)->0, move_dst(m) as int)],
    {
        if m.obtained().is_some() {
            return Err(InvalidInputError(str_to_string("The move that captured the piece is not recorded in the history.")));
        }
        let to = m.dst() as usize;
        match piece_index(teban, state, m) {
            Ok(pi) => Ok(self.history[pi * 81 + to].value()),
            Err(e) => Err(e),
        }
    }

    /// Lowers the history of the kind `m` of side `teban` moves at its destination
    /// by `depth * 2 * HISTORY_SCALE`; refused for a capture and when the piece
    /// moved is not one of `teban`.
    pub fn update_degrade_history(&mut self, teban: Teban, state: &State, m: LegalMove, depth: u32)
        -> (r: Result<(), InvalidInputError>)
        requires
            old(self).wf(),
            move_obtained(m) is None ==> {
                &&& i32::MIN < (depth as i32) * 512 <= i32::MAX
                &&& (m matches LegalMove::To(mt) ==> mt.src_spec() < 81)
                &&& piece_index_of(teban, *state, m) is Some ==> {
                    &&& move_dst(m) < 81
                    &&& bump_fits(old(self).history_view(), kind_square_index(piece_index_of(teban, *state, m)->0, move_dst(m) as int),
                        -((depth as i32) * 512), 16384)
                }
            },
        ensures
            final(self).wf(),
            r is Ok <==> move_obtained(m) is None && piece_index_of(teban, *state, m) is Some,
            final(self).history_view() == if r is Ok {
                bump(old(self).history_view(), kind_square_index(piece_index_of(teban, *state, m)->0, move_dst(m) as int),
                    -((depth as i32) * 512), 16384)
            } else {
                old(self).history_view()
            },
            final(self).max_ply_spec() == old(self).max_ply_spec(),
            final(self).killers() == old(self).killers(),
            final(self).follow_view() == old(self).follow_view(),
            final(self).cont_view() == old(self).cont_view(),
            final(self).p2s_view() == old(self).p2s_view(),
            final(self).counter_view() == old(self).counter_view(),
    {
        if m.obtained().is_some() {
            return Err(InvalidInputError(str_to_string("Move that captures a piece cannot be registered in the history.")));
        }
        let to = m.dst() as usize;
        let bonus: i32 = -((depth as i32) * 2 * HISTORY_SCALE);
        match piece_index(teban, state, m) {
            Ok(pi) => {
                bump_entry(&mut self.history, pi * 81 + to, bonus);
                Ok(())
            },
            Err(e) => Err(e),
        }
    }

    /// Raises the histories of the kind `m` of side `teban` moves at its
    /// destination by `bonus = depth * 6 * HISTORY_SCALE`: the history, the
    /// piece-to-square history, the follow-up history after the last of
    /// `move_history` (when it holds a move), and the continuation histories of the
    /// earlier plies (the `i`-th by `bonus >> i`, plus 88 at the first; at most six,
    /// at most two in check). Refused for a capture and when the piece moved is not
    /// one of `teban`.
    #[verifier::rlimit(40)]
    pub fn update_improve_history(&mut self, teban: Teban, state: &State, m: LegalMove, depth: u32, ply: u32,
        move_history: &[Option<(u8, u8)>]) -> (r: Result<(), InvalidInputError>)
        requires
            old(self).wf(),
            move_obtained(m) is None ==> {
                &&& i32::MIN <= (depth as i32) * 1536 <= i32::MAX
                &&& (m matches LegalMove::To(mt) ==> mt.src_spec() < 81)
            },
            move_obtained(m) is None && piece_index_of(teban, *state, m) is Some ==> ({
                let pi = piece_index_of(teban, *state, m)->0;
                let us = piece_us_index_of(teban, pi)->0;
                let to = move_dst(m) as int;
                let b = ((depth as i32) * 1536) as i32;
                &&& to < 81
                &&& ou_boards_within(state.part_spec())
                &&& bump_fits(old(self).history_view(), kind_square_index(pi, to), b as int, 16384)
                &&& bump_fits(old(self).p2s_view(), kind_square_index(us, to), b as int, 16384)
                &&& (last_move_of(move_history@) matches Some(pt) ==> {
                    &&& pt.0 < 14
                    &&& pt.1 < 81
                    &&& bump_fits(old(self).follow_view(), follow_index(pt.0 as int, pt.1 as int, us, to), b as int, 16384)
                })
                &&& mo_conts_fit(old(self).cont_view(), mo_cont_top(ply as int, old(self).max_ply_spec()), pi, to, b,
                    mo_cont_count(ply as int, old(self).max_ply_spec(), in_check_spec(teban, *state)) as nat)
            }),
        ensures
            final(self).wf(),
            r is Ok <==> move_obtained(m) is None && piece_index_of(teban, *state, m) is Some,
            r is Err ==> *final(self) == *old(self),
            final(self).max_ply_spec() == old(self).max_ply_spec(),
            final(self).killers() == old(self).killers(),
            final(self).counter_view() == old(self).counter_view(),
            r is Ok ==> ({
                let pi = piece_index_of(teban, *state, m)->0;
                let us = piece_us_index_of(teban, pi)->0;
                let to = move_dst(m) as int;
                let b = ((depth as i32) * 1536) as i32;
                &&& final(self).history_view() == bump(old(self).history_view(), kind_square_index(pi, to), b as int, 16384)
                &&& final(self).p2s_view() == bump(old(self).p2s_view(), kind_square_index(us, to), b as int, 16384)
                &&& final(self).follow_view() == match last_move_of(move_history@) {
                    Some(pt) => bump(old(self).follow_view(), follow_index(pt.0 as int, pt.1 as int, us, to), b as int, 16384),
                    None => old(self).follow_view(),
                }
                &&& final(self).cont_view() == mo_conts_after(old(self).cont_view(), mo_cont_top(ply as int, old(self).max_ply_spec()),
                    pi, to, b, mo_cont_count(ply as int, old(self).max_ply_spec(), in_check_spec(teban, *state)) as nat)
            }),
    {
        if m.obtained().is_some() {
            return Err(InvalidInputError(str_to_string("Move that captures a piece cannot be registered in the history.")));
        }
        let to = m.dst() as usize;
        let bonus: i32 = (depth as i32) * 6 * HISTORY_SCALE;
        let pi = match piece_index(teban, state, m) {
            Ok(pi) => pi,
            Err(e) => {
                return Err(e);
            },
        };
        proof {
            lemma_piece_index_sides(teban, *state, m);
        }
        let us = match piece_us_index(teban, pi) {
            Ok(u) => u,
            Err(e) => {
                return Err(e);
            },
        };
        bump_entry(&mut self.history, pi * 81 + to, bonus);
        bump_entry(&mut self.piece_to_square, us * 81 + to, bonus);
        let hl = move_history.len();
        if hl > 0 {
            match move_history[hl - 1] {
                Some((p, t)) => {
                    let idx = (((p as usize) * 81 + t as usize) * 14 + us) * 81 + to;
                    bump_entry(&mut self.follow_up_history, idx, bonus);
                },
                None => {},
            }
        }
        let check = Rule::in_check(teban, state);
        self.improve_continuations(ply, check, pi, to, bonus);
        Ok(())
    }

    /// The continuation part of `update_improve_history`.
    fn improve_continuations(&mut self, ply: u32, in_check: bool, pi: usize, to: usize, bonus: i32)
        requires
            old(self).wf(),
            pi < 28,
            to < 81,
            mo_conts_fit(old(self).cont_view(), mo_cont_top(ply as int, old(self).max_ply_spec()), pi as int, to as int, bonus,
                mo_cont_count(ply as int, old(self).max_ply_spec(), in_check) as nat),
        ensures
            final(self).wf(),
            final(self).max_ply_spec() == old(self).max_ply_spec(),
            final(self).killers() == old(self).killers(),
            final(self).counter_view() == old(self).counter_view(),
            final(self).history_view() == old(self).history_view(),
            final(self).p2s_view() == old(self).p2s_view(),
            final(self).follow_view() == old(self).follow_view(),
            final(self).cont_view() == mo_conts_after(old(self).cont_view(), mo_cont_top(ply as int, old(self).max_ply_spec()),
                pi as int, to as int, bonus, mo_cont_count(ply as int, old(self).max_ply_spec(), in_check) as nat),
    {
        let clen0 = self.continuation_history.len();
        assert((self.max_ply_spec() + 1) <= (self.max_ply_spec() + 1) * 2268) by (nonlinear_arith)
            requires
                self.max_ply_spec() >= 0,
        ;
        let t: usize = if (ply as usize) < self.max_ply { (ply as usize) + 1 } else { self.max_ply + 1 };
        let avail: usize = t - 1;
        let c: usize = if avail < 6 { avail } else { 6 };
        let n: usize = if in_check && c > 2 { 2 } else { c };
        let ghost top = mo_cont_top(ply as int, self.max_ply_spec());
        let ghost v0 = self.cont_view();
        let clen = self.continuation_history.len();
        let mut i: usize = 0;
        while i < n
            invariant
                self.wf(),
                self.max_ply_spec() == old(self).max_ply_spec(),
                self.killers() == old(self).killers(),
                self.counter_view() == old(self).counter_view(),
                self.history_view() == old(self).history_view(),
                self.p2s_view() == old(self).p2s_view(),
                self.follow_view() == old(self).follow_view(),
                clen == self.cont_view().len(),
                v0 == old(self).cont_view(),
                top == t - 2,
                t <= self.max_ply_spec() + 1,
                n <= t - 1,
                n == mo_cont_count(ply as int, old(self).max_ply_spec(), in_check),
                n <= 6,
                pi < 28,
                to < 81,
                i <= n,
                mo_conts_fit(v0, top, pi as int, to as int, bonus, n as nat),
                self.cont_view() == mo_conts_after(v0, top, pi as int, to as int, bonus, i as nat),
            decreases n - i,
        {
            proof {
                lemma_mo_conts_fit_prefix(v0, top, pi as int, to as int, bonus, (i + 1) as nat, n as nat);
                lemma_mo_conts_fit_prefix(v0, top, pi as int, to as int, bonus, i as nat, n as nat);
                lemma_mo_conts_len(v0, top, pi as int, to as int, bonus, i as nat);
                let mp = self.max_ply_spec();
                let row = t - 2 - i;
                assert(row * 2268 + 2268 <= (mp + 1) * 2268) by (nonlinear_arith)
                    requires
                        row <= mp,
                ;
            }
            let row: usize = t - 2 - i;
            let sb: i32 = (bonus >> (i as u32)) + if i == 0 { 88 } else { 0 };
            bump_entry(&mut self.continuation_history, row * 2268 + pi * 81 + to, sb);
            i = i + 1;
        }
    }

    /// Forgets every killer and counter move and empties every history.
    pub fn clear(&mut self)
        requires
            old(self).wf(),
        ensures
            final(self).wf(),
            final(self).max_ply_spec() == old(self).max_ply_spec(),
            final(self).killer_first_view() == Seq::new((old(self).max_ply_spec() + 1) as nat, |i: int| None::<LegalMove>),
            final(self).killer_second_view() == Seq::new((old(self).max_ply_spec() + 1) as nat, |i: int| None::<LegalMove>),
            final(self).usage_view() == Seq::new((old(self).max_ply_spec() + 1) as nat, |i: int| 0u8),
            final(self).history_view() == Seq::new(2268, |i: int| 0i32),
            final(self).follow_view() == Seq::new(1285956, |i: int| 0i32),
            final(self).cont_view() == Seq::new(old(self).cont_view().len(), |i: int| 0i32),
            final(self).p2s_view() == Seq::new(1134, |i: int| 0i32),
            final(self).counter_view() == Seq::new(2268, |i: int| None::<LegalMove>),
    {
        let n = self.usage_killer_moves.len();
        self.killer_first = nones(n);
        self.killer_second = nones(n);
        self.usage_killer_moves = zeros(n);
        self.history = filled(2268, 0);
        self.follow_up_history = filled(1285956, 0);
        let c = self.continuation_history.len();
        self.continuation_history = filled(c, 0);
        self.piece_to_square = filled(1134, 0);
        self.counter_moves = nones(2268);
    }

    /// Empties the continuation histories, at the start of a search.
    pub fn startup(&mut self)
        requires
            old(self).wf(),
        ensures
            final(self).wf(),
            final(self).max_ply_spec() == old(self).max_ply_spec(),
            final(self).killers() == old(self).killers(),
            final(self).history_view() == old(self).history_view(),
            final(self).follow_view() == old(self).follow_view(),
            final(self).p2s_view() == old(self).p2s_view(),
            final(self).counter_view() == old(self).counter_view(),
            final(self).cont_view() == Seq::new(old(self).cont_view().len(), |i: int| 0i32),
    {
        let c = self.continuation_history.len();
        self.continuation_history = filled(c, 0);
    }

    /// The counter-move bonus (see `counter_bonus`).
    fn counter_bonus_exec(&self, teban: Teban, m: LegalMove, prev_move: Option<LegalMove>, prev_kind: KomaKind) -> (r: i64)
        requires
            self.wf(),
            MoveOrderer::prev_kind_ok(teban, prev_kind),
            prev_move matches Some(pm) ==> legal_on_board(pm),
        ensures
            r == self.counter_bonus(teban, m, prev_move, prev_kind),
    {
        if prev_kind == KomaKind::Blank {
            return 0;
        }
        match prev_move {
            None => 0,
            Some(pm) => {
                let pk = prev_kind.to_index();
                let index: usize = if teban.opposite() == Teban::Sente {
                    pk
                } else if 14 <= pk && pk < 28 {
                    pk - 14
                } else {
                    14
                };
                let side = teban_to_index_mo(teban.opposite());
                let d = pm.dst() as usize;
                if is_some_move(self.counter_moves[(side * 14 + index) * 81 + d], m) {
                    64
                } else {
                    0
                }
            },
        }
    }

    /// The quiet score of `m` (see `quiet_score`), with `pi` and `us` the indices
    /// of the kind it moves.
    fn quiet_score_exec(&self, teban: Teban, state: &State, m: LegalMove, ply: u32, prev_move: Option<LegalMove>,
        prev_kind: KomaKind, history: &[Option<(u8, u8)>], pi: usize, us: usize) -> (r: i64)
        requires
            self.wf(),
            piece_index_of(teban, *state, m) == Some(pi as int),
            piece_us_index_of(teban, pi as int) == Some(us as int),
            pi < 28,
            us < 14,
            legal_on_board(m),
            ply <= self.max_ply_spec(),
            MoveOrderer::prev_kind_ok(teban, prev_kind),
            prev_move matches Some(pm) ==> legal_on_board(pm),
            last_move_of(history@) matches Some(pt) ==> pt.0 < 14 && pt.1 < 81,
        ensures
            r == self.quiet_score(teban, *state, m, ply as int, prev_move, prev_kind, history@),
    {
        let to = m.dst() as usize;
        let mut sc: i64 = 2 * (self.history[pi * 81 + to].value() as i64) + 2 * (self.piece_to_square[us * 81 + to].value() as i64);
        let hl = history.len();
        if hl > 0 {
            match history[hl - 1] {
                Some((p, t)) => {
                    let idx = (((p as usize) * 81 + t as usize) * 14 + us) * 81 + to;
                    sc = sc + self.follow_up_history[idx].value() as i64;
                },
                None => {},
            }
        }
        let n: u32 = if ply < 6 { ply } else { 6 };
        let clen = self.continuation_history.len();
        let mut cs: i64 = 0;
        let mut i: u32 = 0;
        while i < n
            invariant
                self.wf(),
                clen == self.cont_view().len(),
                ply <= self.max_ply_spec(),
                n == cont_reach(ply as int),
                n <= ply,
                n <= 6,
                pi < 28,
                to < 81,
                i <= n,
                cs == cont_score(self.cont_view(), ply as int, pi as int, to as int, i as int),
                -(i as int) * 0x4000000 <= cs <= (i as int) * 0x4000000,
            decreases n - i,
        {
            if i != 4 {
                let row = (ply - 1 - i) as usize;
                proof {
                    let mp = self.max_ply_spec();
                    assert(row * 2268 + 2268 <= (mp + 1) * 2268) by (nonlinear_arith)
                        requires
                            row <= mp,
                    ;
                }
                let v = self.continuation_history[row * 2268 + pi * 81 + to].value();
                let q = div_tz(v, 32);
                assert(-0x4000000 <= q <= 0x4000000);
                cs = cs + q as i64;
            }
            i = i + 1;
        }
        let cb = self.counter_bonus_exec(teban, m, prev_move, prev_kind);
        sc + cs + cb
    }

    /// Orders `mvs` for side `teban` at ply `ply` (see `move_order`), highest
    /// first (moves of the same order keep their relative place), each with its
    /// exchange evaluation. Refused when `prev_kind` belongs to `teban`, when
    /// `ply` exceeds the deepest ply kept, and when a quiet move does not move a
    /// piece of `teban`.
    pub fn ordering<E: QuietSeeEffect>(&self, mvs: Vec<LegalMove>, ply: u32, teban: Teban, state: &State, tt_move: Option<LegalMove>,
        pv: Option<LegalMove>, prev_move: Option<LegalMove>, prev_kind: KomaKind, move_history: &[Option<(u8, u8)>])
        -> (r: Result<Vec<(LegalMove, i32)>, InvalidInputError>)
        requires
            self.wf(),
            state.wf(),
            forall|i: int| 0 <= i < mvs@.len() ==> legal_on_board(#[trigger] mvs@[i]),
            prev_move matches Some(pm) ==> legal_on_board(pm),
            last_move_of(move_history@) matches Some(pt) ==> pt.0 < 14 && pt.1 < 81,
            forall|i: int| 0 <= i < mvs@.len() && ply <= self.max_ply_spec()
                && #[trigger] self.reaches_quiet(teban, *state, mvs@[i], ply as int, tt_move, pv) ==>
                i32::MIN <= self.quiet_score(teban, *state, mvs@[i], ply as int, prev_move, prev_kind, move_history@) <= i32::MAX
                && E::effect_requires(teban, *state, mvs@[i],
                    self.quiet_score(teban, *state, mvs@[i], ply as int, prev_move, prev_kind, move_history@) as i32),
        ensures
            r is Err <==> !MoveOrderer::prev_kind_ok(teban, prev_kind) || ply > self.max_ply_spec()
                || exists|j: int| 0 <= j < mvs@.len() && (#[trigger] self.move_order::<E>(teban, *state, mvs@[j], ply as int, tt_move, pv,
                    prev_move, prev_kind, move_history@)) is None,
            r matches Ok(v) ==> {
                &&& v@.len() == mvs@.len()
                &&& result_moves(v@).to_multiset() == mvs@.to_multiset()
                &&& forall|k: int| 0 <= k < v@.len() ==> (#[trigger] self.move_order::<E>(teban, *state, v@[k].0, ply as int, tt_move, pv,
                    prev_move, prev_kind, move_history@)) is Some && self.move_order::<E>(teban, *state, v@[k].0, ply as int, tt_move, pv,
                    prev_move, prev_kind, move_history@).unwrap().1 == v@[k].1
                &&& forall|a: int, b: int| 0 <= a < b < v@.len() ==> order_ge(
                    #[trigger] self.move_order::<E>(teban, *state, v@[a].0, ply as int, tt_move, pv, prev_move, prev_kind, move_history@).unwrap().0,
                    #[trigger] self.move_order::<E>(teban, *state, v@[b].0, ply as int, tt_move, pv, prev_move, prev_kind, move_history@).unwrap().0)
            },
    {
        let pk = prev_kind.to_index();
        if teban.opposite() == Teban::Sente && pk >= 14 && pk < 28 {
            return Err(InvalidInputError(str_to_string(
                "The move specified for the Sente player's turn was designated as the Gote player's move.")));
        } else if teban.opposite() == Teban::Gote && pk < 14 {
            return Err(InvalidInputError(str_to_string(
                "The move specified for the Gote player's turn was designated as the Sente player's move.")));
        } else if (ply as usize) > self.max_ply {
            return Err(InvalidInputError(str_to_string("ply value exceeds max_ply.")));
        }
        let ghost plyi = ply as int;
        let mut sorted: Vec<(MoveOrder, LegalMove, i32)> = Vec::new();
        proof {
            assert(entry_moves(sorted@) =~= Seq::<LegalMove>::empty());
            assert(mvs@.subrange(0, 0) =~= Seq::<LegalMove>::empty());
        }
        let mut i: usize = 0;
        while i < mvs.len()
            invariant
                self.wf(),
                state.wf(),
                ply as int <= self.max_ply_spec(),
                plyi == ply as int,
                MoveOrderer::prev_kind_ok(teban, prev_kind),
                forall|j: int| 0 <= j < mvs@.len() ==> legal_on_board(#[trigger] mvs@[j]),
                prev_move matches Some(pm) ==> legal_on_board(pm),
                last_move_of(move_history@) matches Some(pt) ==> pt.0 < 14 && pt.1 < 81,
                forall|j: int| 0 <= j < mvs@.len() && ply <= self.max_ply_spec()
                    && #[trigger] self.reaches_quiet(teban, *state, mvs@[j], ply as int, tt_move, pv) ==>
                    i32::MIN <= self.quiet_score(teban, *state, mvs@[j], ply as int, prev_move, prev_kind, move_history@) <= i32::MAX
                    && E::effect_requires(teban, *state, mvs@[j],
                        self.quiet_score(teban, *state, mvs@[j], ply as int, prev_move, prev_kind, move_history@) as i32),
                i <= mvs@.len(),
                sorted@.len() == i,
                entry_moves(sorted@).to_multiset() == mvs@.subrange(0, i as int).to_multiset(),
                forall|j: int| 0 <= j < i ==> (#[trigger] self.move_order::<E>(teban, *state, mvs@[j], plyi, tt_move, pv,
                    prev_move, prev_kind, move_history@)) is Some,
                forall|k: int| 0 <= k < sorted@.len() ==> #[trigger] self.move_order::<E>(teban, *state, sorted@[k].1, plyi, tt_move, pv,
                    prev_move, prev_kind, move_history@) == Some((sorted@[k].0, sorted@[k].2 as int)),
                forall|a: int, b: int| 0 <= a < b < sorted@.len() ==> order_ge(#[trigger] sorted@[a].0, #[trigger] sorted@[b].0),
            decreases mvs@.len() - i,
        {
            let m = mvs[i];
            assert(legal_on_board(mvs@[i as int]));
            let (o, see): (MoveOrder, i32) = match self.order_of::<E>(teban, state, m, ply, tt_move, pv, prev_move, prev_kind, move_history) {
                Some(p) => p,
                None => {
                    return Err(InvalidInputError(str_to_string("The piece type of the moved piece does not belong to the side to move.")));
                },
            };
            let ghost before = sorted@;
            let pos = insert_ordered(&mut sorted, (o, m, see));
            proof {
                assert(mvs@.subrange(0, i + 1) =~= mvs@.subrange(0, i as int).push(m));
                vstd::seq_lib::to_multiset_build(mvs@.subrange(0, i as int), m);
                assert forall|k: int| 0 <= k < sorted@.len() implies #[trigger] self.move_order::<E>(teban, *state, sorted@[k].1, plyi, tt_move,
                    pv, prev_move, prev_kind, move_history@) == Some((sorted@[k].0, sorted@[k].2 as int)) by {
                    if k < pos {
                        assert(sorted@[k] == before[k]);
                    } else if k > pos {
                        assert(sorted@[k] == before[k - 1]);
                    }
                }
                assert forall|j: int| 0 <= j < i + 1 implies (#[trigger] self.move_order::<E>(teban, *state, mvs@[j], plyi, tt_move, pv,
                    prev_move, prev_kind, move_history@)) is Some by {
                    if j == i {
                        assert(mvs@[j] == m);
                    }
                }
            }
            i = i + 1;
        }
        let mut out: Vec<(LegalMove, i32)> = Vec::new();
        let mut k: usize = 0;
        while k < sorted.len()
            invariant
                k <= sorted@.len(),
                out@.len() == k,
                forall|j: int| 0 <= j < k ==> #[trigger] out@[j] == (sorted@[j].1, sorted@[j].2),
            decreases sorted@.len() - k,
        {
            let e = sorted[k];
            out.push((e.1, e.2));
            k = k + 1;
        }
        proof {
            assert(result_moves(out@) =~= entry_moves(sorted@));
            assert(mvs@.subrange(0, mvs@.len() as int) =~= mvs@);
        }
        Ok(out)
    }

    /// The order of `m` and its evaluation (see `move_order`).
    fn order_of<E: QuietSeeEffect>(&self, teban: Teban, state: &State, m: LegalMove, ply: u32, tt_move: Option<LegalMove>, pv: Option<LegalMove>,
        prev_move: Option<LegalMove>, prev_kind: KomaKind, history: &[Option<(u8, u8)>]) -> (r: Option<(MoveOrder, i32)>)
        requires
            self.wf(),
            state.wf(),
            legal_on_board(m),
            ply <= self.max_ply_spec(),
            MoveOrderer::prev_kind_ok(teban, prev_kind),
            prev_move matches Some(pm) ==> legal_on_board(pm),
            last_move_of(history@) matches Some(pt) ==> pt.0 < 14 && pt.1 < 81,
            self.reaches_quiet(teban, *state, m, ply as int, tt_move, pv) ==>
                i32::MIN <= self.quiet_score(teban, *state, m, ply as int, prev_move, prev_kind, history@) <= i32::MAX
                && E::effect_requires(teban, *state, m, self.quiet_score(teban, *state, m, ply as int, prev_move, prev_kind, history@) as i32),
        ensures
            match self.move_order::<E>(teban, *state, m, ply as int, tt_move, pv, prev_move, prev_kind, history@) {
                Some(p) => r == Some((p.0, p.1 as i32)) && p.1 == p.1 as i32,
                None => r is None,
            },
    {
        reveal(MoveOrderer::move_order);
        reveal(MoveOrderer::reaches_quiet);
        let is_cap = m.obtained().is_some();
        if is_some_move(tt_move, m) {
            let see: i32 = if is_cap { calc_see(teban, state, m) } else { 0 };
            return Some((MoveOrder::TT, see));
        }
        if is_some_move(pv, m) {
            let see: i32 = if is_cap { calc_see(teban, state, m) } else { 0 };
            return Some((MoveOrder::PV, see));
        }
        match m {
            LegalMove::To(mt) => {
                if mt.obtained().is_some() {
                    let see = calc_see(teban, state, m);
                    if see >= 0 {
                        return Some((MoveOrder::GoodCaptures(see), see));
                    } else {
                        return Some((MoveOrder::BadCaptures(see), see));
                    }
                }
            },
            LegalMove::Put(_) => {},
        }
        if Rule::is_oute_move(state, teban, m) {
            return Some((MoveOrder::Checks, E::see(teban, state, m)));
        }
        let p = ply as usize;
        if is_some_move(self.killer_first[p], m) {
            return Some((MoveOrder::KillerMoves(1), E::see(teban, state, m)));
        }
        if is_some_move(self.killer_second[p], m) {
            return Some((MoveOrder::KillerMoves(0), E::see(teban, state, m)));
        }
        let pi = match piece_index(teban, state, m) {
            Ok(pi) => pi,
            Err(_) => {
                return None;
            },
        };
        proof {
            lemma_piece_index_sides(teban, *state, m);
        }
        let us = match piece_us_index(teban, pi) {
            Ok(u) => u,
            Err(_) => {
                return None;
            },
        };
        let s = self.quiet_score_exec(teban, state, m, ply, prev_move, prev_kind, history, pi, us);
        let e = E::effect(teban, state, m, s as i32);
        let see = E::see(teban, state, m);
        Some((MoveOrder::Quiet(e), see))
    }

    /// Keeps `m` as the newest killer move of ply `ply`, the newest before it
    /// becoming the older one; refused for a ply beyond the deepest kept, for a
    /// capture and for a promotion.
    pub fn update_killer(&mut self, ply: u32, m: LegalMove) -> (r: Result<(), InvalidInputError>)
        requires
            old(self).wf(),
        ensures
            final(self).wf(),
            final(self).max_ply_spec() == old(self).max_ply_spec(),
            final(self).history_view() == old(self).history_view(),
            final(self).follow_view() == old(self).follow_view(),
            final(self).cont_view() == old(self).cont_view(),
            final(self).p2s_view() == old(self).p2s_view(),
            final(self).counter_view() == old(self).counter_view(),
            r is Ok <==> ply <= old(self).max_ply_spec() && quiet_unpromoted(m),
            r is Err ==> *final(self) == *old(self),
            r is Ok ==> final(self).killers() == killers_after(old(self).killers(), ply as int, m),
    {
        if (ply as usize) > self.max_ply {
            return Err(InvalidInputError(str_to_string("ply value exceeds max_ply.")));
        } else if m.obtained().is_some() {
            return Err(InvalidInputError(str_to_string("Move that captures a piece cannot be registered in the Killer Move.")));
        }
        match m {
            LegalMove::To(mv) => {
                if mv.is_nari() {
                    return Err(InvalidInputError(str_to_string("Promotion move is not included in the killer moves.")));
                }
            },
            LegalMove::Put(_) => {},
        }
        let p = ply as usize;
        let u = self.usage_killer_moves[p];
        if u >= 1 {
            let first = self.killer_first[p];
            self.killer_second.set(p, first);
            self.killer_first.set(p, Some(m));
        } else if u == 0 {
            self.killer_first.set(p, Some(m));
        }
        if u < 2 {
            self.usage_killer_moves.set(p, u + 1);
        }
        Ok(())
    }

    /// Whether `m` is a killer move of ply `ply`; refused for a ply beyond the deepest kept.
    pub fn is_killer(&self, ply: u32, m: LegalMove) -> (r: Result<bool, InvalidInputError>)
        requires
            self.wf(),
        ensures
            r is Err <==> ply > self.max_ply_spec(),
            r matches Ok(b) ==> b == is_killer_in(self.killers(), ply as int, m),
    {
        if (ply as usize) > self.max_ply {
            return Err(InvalidInputError(str_to_string("ply value exceeds max_ply.")));
        }
        let p = ply as usize;
        let b = if self.usage_killer_moves[p] == 0 {
            false
        } else if is_some_move(self.killer_first[p], m) {
            true
        } else if is_some_move(self.killer_second[p], m) {
            true
        } else {
            false
        };
        Ok(b)
    }

    /// Keeps `m` as the counter move of side `teban` to the opponent's
    /// `prev_move` (of `prev_kind`, `Blank` for a drop) at its destination; a move
    /// on the board given with `Blank` keeps nothing. Refused for a capture, for a
    /// promotion and when `prev_kind` belongs to `teban`.
    pub fn update_counter_move(&mut self, m: LegalMove, teban: Teban, prev_move: LegalMove, prev_kind: KomaKind)
        -> (r: Result<(), InvalidInputError>)
        requires
            old(self).wf(),
            quiet_unpromoted(m) && counter_place(teban, prev_move, prev_kind) is Ok ==> move_dst(prev_move) < 81,
        ensures
            final(self).wf(),
            r is Ok <==> quiet_unpromoted(m) && counter_place(teban, prev_move, prev_kind) is Ok,
            final(self).counter_view() == if r is Ok {
                counters_after(old(self).counter_view(), teban, prev_move, prev_kind, m)
            } else {
                old(self).counter_view()
            },
            final(self).max_ply_spec() == old(self).max_ply_spec(),
            final(self).killer_first_view() == old(self).killer_first_view(),
            final(self).killer_second_view() == old(self).killer_second_view(),
            final(self).usage_view() == old(self).usage_view(),
            final(self).history_view() == old(self).history_view(),
            final(self).follow_view() == old(self).follow_view(),
            final(self).cont_view() == old(self).cont_view(),
            final(self).p2s_view() == old(self).p2s_view(),
    {
        if m.obtained().is_some() {
            return Err(InvalidInputError(str_to_string("Move that captures a piece cannot be registered in the Counter Move.")));
        }
        match m {
            LegalMove::To(mv) => {
                if mv.is_nari() {
                    return Err(InvalidInputError(str_to_string("Promotion move is not included in the counter moves.")));
                }
            },
            LegalMove::Put(_) => {},
        }
        let side = teban_to_index_mo(teban.opposite());
        match prev_move {
            LegalMove::To(mv) => {
                if prev_kind == KomaKind::Blank {
                    return Ok(());
                }
                let pk = prev_kind.to_index();
                let index = if teban == Teban::Sente {
                    if pk < 14 {
                        return Err(InvalidInputError(str_to_string(
                            "The previous move was made by the Gote player, but the piece type in prev_kind belongs to the Sente player.")));
                    }
                    pk - 14
                } else {
                    if pk >= 14 {
                        return Err(InvalidInputError(str_to_string(
                            "The previous move was made by the Sente player, but the piece type in prev_kind belongs to the Gote player.")));
                    }
                    pk
                };
                let d = mv.dst() as usize;
                self.counter_moves.set((side * 14 + index) * 81 + d, Some(m));
            },
            LegalMove::Put(mv) => {
                let k = mv.kind().to_index();
                let d = mv.dst() as usize;
                self.counter_moves.set((side * 14 + k) * 81 + d, Some(m));
            },
        }
        Ok(())
    }

    /// Whether `m` is the counter move of side `teban` to `prev_move` (of
    /// `prev_kind`); never a capture or a promotion, nor the answer to a move on the
    /// board given with `Blank`. Refused when `prev_kind` belongs to `teban`.
    pub fn is_counter_move(&self, m: LegalMove, teban: Teban, prev_move: LegalMove, prev_kind: KomaKind)
        -> (r: Result<bool, InvalidInputError>)
        requires
            self.wf(),
            quiet_unpromoted(m) && counter_place(teban, prev_move, prev_kind) is Ok ==> move_dst(prev_move) < 81,
        ensures
            !quiet_unpromoted(m) ==> r == Ok::<bool, InvalidInputError>(false),
            quiet_unpromoted(m) ==> (r is Err <==> counter_place(teban, prev_move, prev_kind) is Err),
            r matches Ok(b) ==> b == is_counter_in(self.counter_view(), teban, prev_move, prev_kind, m),
    {
        if m.obtained().is_some() {
            return Ok(false);
        }
        match m {
            LegalMove::To(mv) => {
                if mv.is_nari() {
                    return Ok(false);
                }
            },
            LegalMove::Put(_) => {},
        }
        let side = teban_to_index_mo(teban.opposite());
        match prev_move {
            LegalMove::To(mv) => {
                if prev_kind == KomaKind::Blank {
                    return Ok(false);
                }
                let pk = prev_kind.to_index();
                let index = if teban == Teban::Sente {
                    if pk < 14 {
                        return Err(InvalidInputError(str_to_string(
                            "The previous move was made by the Gote player, but the piece type in prev_kind belongs to the Sente player.")));
                    }
                    pk - 14
                } else {
                    if pk >= 14 {
                        return Err(InvalidInputError(str_to_string(
                            "The previous move was made by the Sente player, but the piece type in prev_kind belongs to the Gote player.")));
                    }
                    pk
                };
                let d = mv.dst() as usize;
                Ok(is_some_move(self.counter_moves[(side * 14 + index) * 81 + d], m))
            },
            LegalMove::Put(mv) => {
                let k = mv.kind().to_index();
                let d = mv.dst() as usize;
                Ok(is_some_move(self.counter_moves[(side * 14 + k) * 81 + d], m))
            },
        }
    }
}

} // verus!
