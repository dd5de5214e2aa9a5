//! Static exchange evaluation: what a capture sequence on one square gains.
use vstd::prelude::*;
use crate::rule::{Rule, LegalMove, AppliedMove, AppliedMoveTo, AppliedMovePut, applied_of_legal, move_dst, move_obtained, lemma_point_x, SquareToPoint};
use crate::rule::state::{State, square_kind, field_board, lemma_state_determined};
use crate::rule::apply::{move_on_board, kind_after_move, field_after_move};
use crate::rule::movegen::point_kind_moves;
use crate::rule::oute::legal_on_board;
use crate::shogi::{KomaKind, Teban, MochigomaCollections, kind_index, opposite_of};
use crate::stats::kind_on;

verus! {

/// How many captures in a row the evaluation follows at most (more than the
/// pieces on a board).
pub const SEE_DEPTH: u32 = 40;

/// The score of a piece of kind `k` (nine tenths of its value; a king counts
/// 13500, an empty square 0).
pub open spec fn piece_score(k: KomaKind) -> int {
    let i = kind_index(k);
    let j = if i >= 14 && i < 28 { i - 14 } else { i };
    if i == 28 { 0 }
    else if j == 0 { 81 }
    else if j == 1 { 283 }
    else if j == 2 { 364 }
    else if j == 3 { 445 }
    else if j == 4 { 486 }
    else if j == 5 { 769 }
    else if j == 6 { 891 }
    else if j == 7 { 13500 }
    else if j == 12 { 850 }
    else if j == 13 { 1255 }
    else { 486 }
}

/// Whether `m` moves a piece on the board onto `target`.
pub open spec fn is_capture_to(m: LegalMove, target: int) -> bool {
    m matches LegalMove::To(mt) && mt.dst_spec() == target && mt.src_spec() < 81
}

/// The origin square of a move on the board.
pub open spec fn move_src(m: LegalMove) -> int {
    match m {
        LegalMove::To(mt) => mt.src_spec() as int,
        LegalMove::Put(_) => 0,
    }
}

/// The first of `ms` that moves onto `target`.
pub open spec fn first_capture(ms: Seq<LegalMove>, target: int) -> Option<LegalMove>
    decreases ms.len(),
{
    if ms.len() == 0 {
        None
    } else if is_capture_to(ms[0], target) {
        Some(ms[0])
    } else {
        first_capture(ms.drop_first(), target)
    }
}

/// Whether a piece of kind `k` belongs to side `t`.
pub open spec fn own_piece(t: Teban, k: KomaKind) -> bool {
    if t == Teban::Sente {
        kind_index(k) < 14
    } else {
        14 <= kind_index(k) < 28
    }
}

/// The capture onto `target` by the least valuable piece of side `t` among
/// the first `n` squares (the lowest square on ties), each piece taking its
/// first generated move onto `target`.
pub open spec fn cheapest_capture(state: State, t: Teban, target: int, n: int) -> Option<LegalMove>
    decreases n,
{
    if n <= 0 {
        None
    } else {
        let prev = cheapest_capture(state, t, target, n - 1);
        let s = n - 1;
        let k = square_kind(state.banmen_spec(), s);
        if !own_piece(t, k) {
            prev
        } else {
            match first_capture(point_kind_moves(t, state, s as u32, k), target) {
                None => prev,
                Some(m) => match prev {
                    None => Some(m),
                    Some(pm) => if piece_score(square_kind(state.banmen_spec(), move_src(m)))
                        < piece_score(square_kind(state.banmen_spec(), move_src(pm))) {
                        Some(m)
                    } else {
                        prev
                    },
                },
            }
        }
    }
}

/// The capture onto `target` that the piece of side `t` on square `s` offers,
/// if it is one of `t`'s and has one.
pub open spec fn capture_from(state: State, t: Teban, target: int, s: int) -> Option<LegalMove> {
    let k = square_kind(state.banmen_spec(), s);
    if own_piece(t, k) {
        first_capture(point_kind_moves(t, state, s as u32, k), target)
    } else {
        None
    }
}

/// The score of the piece that makes the capture `m`.
pub open spec fn capturer_score(state: State, m: LegalMove) -> int {
    piece_score(square_kind(state.banmen_spec(), move_src(m)))
}

/// In the exchange each side recaptures with its least valuable attacker: the
/// capture chosen among the first `n` squares is one that some piece of side
/// `t` there offers, by a piece whose score is no higher than that of any other
/// piece of `t` there with a capture onto `target`; none is chosen exactly
/// when no piece there has one.
pub proof fn law_cheapest_capture_is_least_valuable(state: State, t: Teban, target: int, n: int)
    requires
        0 <= n,
    ensures
        cheapest_capture(state, t, target, n) is None <==> forall|s: int| 0 <= s < n ==> #[trigger] capture_from(state, t, target, s) is None,
        cheapest_capture(state, t, target, n) matches Some(m) ==> exists|s: int| 0 <= s < n
            && #[trigger] capture_from(state, t, target, s) == Some(m),
        cheapest_capture(state, t, target, n) matches Some(m) ==> forall|s: int| 0 <= s < n
            && (#[trigger] capture_from(state, t, target, s)) is Some
            ==> capturer_score(state, m) <= capturer_score(state, capture_from(state, t, target, s)->0),
    decreases n,
{
    if n > 0 {
        law_cheapest_capture_is_least_valuable(state, t, target, n - 1);
        let prev = cheapest_capture(state, t, target, n - 1);
        let c = capture_from(state, t, target, n - 1);
        assert(forall|s: int| 0 <= s < n - 1 ==> #[trigger] capture_from(state, t, target, s) == capture_from(state, t, target, s));
        match c {
            None => {
                assert(cheapest_capture(state, t, target, n) == prev);
            },
            Some(m) => {
                match prev {
                    None => {
                        assert(cheapest_capture(state, t, target, n) == Some(m));
                    },
                    Some(pm) => {
                        if capturer_score(state, m) < capturer_score(state, pm) {
                            assert(cheapest_capture(state, t, target, n) == Some(m));
                        } else {
                            assert(cheapest_capture(state, t, target, n) == prev);
                        }
                    },
                }
            },
        }
    }
}

/// `s2` has the board and bitboards after side `t` plays `m` in `state`.
pub open spec fn applied_state(state: State, t: Teban, m: AppliedMove, s2: State) -> bool {
    &&& forall|s: int| 0 <= s < 81 ==> #[trigger] square_kind(s2.banmen_spec(), s) == kind_after_move(state.banmen_spec(), t, m, s)
    &&& forall|f: int| 0 <= f < 22 ==> #[trigger] field_board(s2.part_spec(), f)
        == field_after_move(state.part_spec(), state.banmen_spec(), t, m, f)
}

/// The board and bitboards after side `t` plays `m` in `state`.
pub open spec fn state_after(state: State, t: Teban, m: LegalMove) -> State {
    choose|s2: State| applied_state(state, t, applied_of_legal(m), s2)
}

/// What side `t` gains at most by capturing on `target` first, the sides
/// then taking turns with their least valuable capturing pieces, each side
/// free to stop (a gain below 0 counts 0); at most `n` captures are followed.
pub open spec fn see_gain(state: State, t: Teban, target: int, n: nat) -> int
    decreases n,
{
    if n == 0 {
        0
    } else {
        match cheapest_capture(state, t, target, 81) {
            None => 0,
            Some(m) => {
                let g = piece_score(square_kind(state.banmen_spec(), target))
                    - see_gain(state_after(state, t, m), opposite_of(t), target, (n - 1) as nat);
                if g > 0 { g } else { 0 }
            },
        }
    }
}

/// The static exchange evaluation of the move `m` of side `teban`: what it
/// captures, less what the opponent then gains on its destination.
pub open spec fn see_spec(teban: Teban, state: State, m: LegalMove) -> int {
    let target = move_dst(m) as int;
    (if move_obtained(m) is Some { piece_score(square_kind(state.banmen_spec(), target)) } else { 0 })
        - see_gain(state_after(state, teban, m), opposite_of(teban), target, SEE_DEPTH as nat)
}

/// The score of a piece of kind `k`.
fn piece_score_exec(k: KomaKind) -> (r: i32)
    ensures
        r == piece_score(k),
        0 <= r <= 13500,
{
    let i = k.to_index();
    let j = if i >= 14 && i < 28 { i - 14 } else { i };
    if i == 28 { 0 }
    else if j == 0 { 81 }
    else if j == 1 { 283 }
    else if j == 2 { 364 }
    else if j == 3 { 445 }
    else if j == 4 { 486 }
    else if j == 5 { 769 }
    else if j == 6 { 891 }
    else if j == 7 { 13500 }
    else if j == 12 { 850 }
    else if j == 13 { 1255 }
    else { 486 }
}

/// The first of `ms` that moves onto `target`.
fn first_capture_exec(ms: &Vec<LegalMove>, target: u32) -> (r: Option<LegalMove>)
    ensures
        r == first_capture(ms@, target as int),
        r matches Some(m) ==> is_capture_to(m, target as int),
{
    let mut i: usize = 0;
    proof {
        assert(ms@.subrange(0, ms@.len() as int) =~= ms@);
    }
    while i < ms.len()
        invariant
            i <= ms@.len(),
            first_capture(ms@.subrange(i as int, ms@.len() as int), target as int) == first_capture(ms@, target as int),
        decreases ms.len() - i,
    {
        let m = ms[i];
        let ghost sub = ms@.subrange(i as int, ms@.len() as int);
        assert(sub[0] == m);
        match m {
            LegalMove::To(mt) => {
                if mt.dst() == target && mt.src() < 81 {
                    return Some(m);
                }
            },
            LegalMove::Put(_) => {},
        }
        assert(sub.drop_first() =~= ms@.subrange(i + 1, ms@.len() as int));
        i = i + 1;
    }
    None
}

/// The capture onto `target` by the least valuable piece of side `t` (see `cheapest_capture`).
fn cheapest_capture_exec(state: &State, t: Teban, target: u32) -> (r: Option<LegalMove>)
    ensures
        r == cheapest_capture(*state, t, target as int, 81),
        r matches Some(m) ==> is_capture_to(m, target as int),
{
    let mut best: Option<LegalMove> = None;
    let mut best_score: i32 = 0;
    let mut s: u32 = 0;
    while s < 81
        invariant
            s <= 81,
            best == cheapest_capture(*state, t, target as int, s as int),
            best matches Some(bm) ==> is_capture_to(bm, target as int)
                && best_score == piece_score(square_kind(state.banmen_spec(), move_src(bm))),
        decreases 81 - s,
    {
        let k = kind_on(state, s);
        let ki = k.to_index();
        let own = if t == Teban::Sente { ki < 14 } else { 14 <= ki && ki < 28 };
        if own {
            proof {
                lemma_point_x(s);
                vstd::arithmetic::div_mod::lemma_fundamental_div_mod(s as int, 9);
            }
            let x = s * 114 / 1024;
            let y = s - x * 9;
            let ms = Rule::legal_moves_with_point(t, state, x, y);
            assert(x * 9 + y == s);
            match first_capture_exec(&ms, target) {
                None => {},
                Some(m) => {
                    let src = match m {
                        LegalMove::To(mt) => mt.src(),
                        LegalMove::Put(_) => 0,
                    };
                    let sc = piece_score_exec(kind_on(state, src));
                    match best {
                        None => {
                            best = Some(m);
                            best_score = sc;
                        },
                        Some(_) => {
                            if sc < best_score {
                                best = Some(m);
                                best_score = sc;
                            }
                        },
                    }
                },
            }
        }
        s = s + 1;
    }
    best
}

/// The board and bitboards after side `t` plays the move on the board or drop `m`.
fn play(state: &State, t: Teban, m: LegalMove) -> (r: State)
    requires
        legal_on_board(m),
    ensures
        r == state_after(*state, t, m),
{
    let am = match m {
        LegalMove::To(mt) => AppliedMove::To(AppliedMoveTo::from_legal(mt)),
        LegalMove::Put(mp) => AppliedMove::Put(AppliedMovePut::from_legal(mp)),
    };
    let (next, _, _) = Rule::apply_move_none_check(state, t, &MochigomaCollections::Empty, am);
    proof {
        assert(applied_state(*state, t, am, next));
        let c = choose|s2: State| applied_state(*state, t, am, s2);
        assert(applied_state(*state, t, am, c));
        lemma_state_determined(next, c);
    }
    next
}

/// What side `t` gains by capturing on `target` (see `see_gain`).
fn see_gain_exec(state: &State, t: Teban, target: u32, n: u32) -> (r: i32)
    requires
        target < 81,
    ensures
        r == see_gain(*state, t, target as int, n as nat),
        0 <= r <= 13500,
    decreases n,
{
    if n == 0 {
        return 0;
    }
    match cheapest_capture_exec(state, t, target) {
        None => 0,
        Some(m) => {
            let v = piece_score_exec(kind_on(state, target));
            let next = play(state, t, m);
            let g = v - see_gain_exec(&next, t.opposite(), target, n - 1);
            if g > 0 { g } else { 0 }
        },
    }
}

/// The static exchange evaluation of the move `m` of side `teban` (see `see_spec`).
pub fn calc_see(teban: Teban, state: &State, m: LegalMove) -> (r: i32)
    requires
        legal_on_board(m),
    ensures
        r == see_spec(teban, *state, m),
{
    let target = m.dst();
    let captured: i32 = if m.obtained().is_some() { piece_score_exec(kind_on(state, target)) } else { 0 };
    let next = play(state, teban, m);
    captured - see_gain_exec(&next, teban.opposite(), target, SEE_DEPTH)
}

} // verus!
