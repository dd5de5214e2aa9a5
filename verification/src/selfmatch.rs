//! Refereeing games between two engines: the position of the game, the
//! judgement of each reply of an engine, and the decisions around a turn.
use vstd::prelude::*;
use crate::shogi::{Teban, Banmen, Mochigoma, MochigomaKind, MochigomaCollections, opposite_of, mochigoma_index};
use crate::command::BestMove;
use crate::event::{SelfMatchGameEndState, FoulKind};
use crate::rule::{Rule, State, AppliedMove, move_convertible, applied_of_move};
use crate::rule::state::{square_kind, field_board};
use crate::rule::apply::{move_on_board, capture_fits, kind_after_move, field_after_move, obtained_of_move,
    hands_after_move, hand_of};
use crate::rule::validity::valid_move_spec;
use crate::rule::mate::is_mate_spec;
use crate::rule::game::{is_win_spec, count_of};
use crate::rule::oute::{parts_within, lemma_wf_parts_within};
use crate::rule::oute_moves::{put_fu_mate_spec, nyugyoku_spec, lemma_field_after_within};
use crate::hash::{KyokumenHash, KyokumenMap, MOCHIGOMA_MAX};
use crate::protocol::{ToSfen, params_view, moves_text, str_eq};
use crate::error::{SfenStringConvertError, ToMoveStringConvertError, DanConvertError, str_to_string};
use vstd::string::StringExecFns;

verus! {

/// The position of a game between two engines as the referee keeps it: the
/// side to move, the board, the hands, the two hashes of the position, the
/// positions met so far (all of them, and those reached by checking moves)
/// and the moves played.
pub struct SelfMatchGame {
    /// The side to move.
    pub teban: Teban,
    /// The board.
    pub state: State,
    /// The pieces in hand.
    pub mc: MochigomaCollections,
    /// The main hash of the position.
    pub mhash: u64,
    /// The sub hash of the position.
    pub shash: u64,
    /// How often each position occurred, by the side that moved into it.
    pub kyokumen_map: KyokumenMap<u32>,
    /// How often each position occurred in a run of checks, by the checking side.
    pub oute_kyokumen_map: KyokumenMap<u32>,
    /// The moves played from the start position.
    pub moves: Vec<AppliedMove>,
}

/// What the referee decides on a reply of the engine to move.
#[derive(Clone, Copy, Debug, PartialEq, Eq)]
pub enum Judgement {
    /// The move stands and the other side is to move; the move the engine
    /// expects in reply, if it named one.
    Continue(Option<AppliedMove>),
    /// The game is over.
    GameEnd(SelfMatchGameEndState),
    /// The engine aborted its thinking: the game is abandoned.
    Abort,
}

/// What to ask of the engine to move at the start of its turn.
#[derive(Clone, Copy, Debug, PartialEq, Eq)]
pub enum PonderAction {
    /// Nothing was pondered: start thinking.
    StartThink,
    /// The pondered reply was played: the pondering goes on as thinking.
    PonderHit,
    /// Another reply was played: stop pondering and start thinking.
    PonderMiss,
}

/// What ends the waiting for a reply.
#[derive(Clone, Copy, Debug, PartialEq, Eq)]
pub enum TimeoutKind {
    /// Nothing: the wait has no deadline.
    Never,
    /// The time of the turn runs out.
    Turn,
    /// The running time of all the games runs out.
    Uptime,
}

/// Whether a hand is given as counts that the hash seeds cover.
pub open spec fn hands_within_seeds(mc: MochigomaCollections) -> bool {
    forall|i: int| #![trigger hand_of(mc, Teban::Sente)[i]] #![trigger hand_of(mc, Teban::Gote)[i]]
        0 <= i < 7 ==> hand_of(mc, Teban::Sente)[i] <= MOCHIGOMA_MAX && hand_of(mc, Teban::Gote)[i] <= MOCHIGOMA_MAX
}

/// The hands the initial hashes are computed from: sente's and gote's when
/// sente is to move, the other way round when gote is.
pub open spec fn hashed_hands(teban: Teban, mc: MochigomaCollections) -> (Seq<u32>, Seq<u32>) {
    match mc {
        MochigomaCollections::Pair(ms, mg) => if teban == Teban::Sente { (ms@, mg@) } else { (mg@, ms@) },
        MochigomaCollections::Empty => (Seq::new(7, |i: int| 0u32), Seq::new(7, |i: int| 0u32)),
    }
}

/// The hashes of `g`'s position once side `g.teban` plays `m`.
pub open spec fn step_hashes(g: SelfMatchGame, hasher: KyokumenHash, m: AppliedMove) -> (u64, u64) {
    let b = g.state.banmen_spec();
    let o = obtained_of_move(b, m);
    (hasher.calc_hash_spec(true, g.mhash, g.teban, b, g.mc, m, o),
        hasher.calc_hash_spec(false, g.shash, g.teban, b, g.mc, m, o))
}

/// Playing `m` in `g` stays within what the tables hold: the move lies on
/// the board, the hand that takes a captured piece can count it, the hash
/// seeds cover the counts in hand, and the counts of the position reached
/// can grow by one.
pub open spec fn step_fits(g: SelfMatchGame, hasher: KyokumenHash, m: AppliedMove) -> bool {
    let b = g.state.banmen_spec();
    let h = step_hashes(g, hasher, m);
    &&& move_on_board(m)
    &&& capture_fits(b, g.teban, g.mc, m)
    &&& KyokumenHash::calc_hash_requires(g.mc, g.teban, m, obtained_of_move(b, m))
    &&& count_of(g.kyokumen_map.view_of_side(g.teban), h.0, h.1) < u32::MAX
    &&& count_of(g.oute_kyokumen_map.view_of_side(g.teban), h.0, h.1) < u32::MAX
}

/// `g2` holds the position of `g` after side `g.teban` plays `m`: the board,
/// the bitboards, the hands and the hashes after the move, with the move
/// recorded.
pub open spec fn played(g: SelfMatchGame, hasher: KyokumenHash, m: AppliedMove, g2: SelfMatchGame) -> bool {
    let b = g.state.banmen_spec();
    &&& forall|s: int| 0 <= s < 81 ==> #[trigger] square_kind(g2.state.banmen_spec(), s)
        == kind_after_move(b, g.teban, m, s)
    &&& forall|f: int| 0 <= f < 22 ==> #[trigger] field_board(g2.state.part_spec(), f)
        == field_after_move(g.state.part_spec(), b, g.teban, m, f)
    &&& hands_after_move(b, g.teban, g.mc, m, g2.mc)
    &&& (g2.mhash, g2.shash) == step_hashes(g, hasher, m)
    &&& g2.moves@ == g.moves@.push(m)
}

/// The end of the game, if any, once side `g.teban` played the valid move
/// `m` and reached `g2`: a move that takes the king wins; a move after which
/// the king can be taken loses (failing to answer a check, or walking into
/// one); then a mating pawn drop, a position repeated in a run of checks, and
/// a position met three times before by the same side lose.
pub open spec fn move_outcome(g: SelfMatchGame, g2: SelfMatchGame, m: AppliedMove) -> Option<SelfMatchGameEndState> {
    let t = g.teban;
    let o = opposite_of(t);
    if is_win_spec(g.state, t, m) {
        Some(SelfMatchGameEndState::Win(t))
    } else if is_mate_spec(o, g2.state) {
        Some(SelfMatchGameEndState::Foul(t, if is_mate_spec(o, g.state) { FoulKind::NotRespondedOute } else { FoulKind::Suicide }))
    } else if put_fu_mate_spec(g2.state, t, g2.mc, m) {
        Some(SelfMatchGameEndState::Foul(t, FoulKind::PutFuAndMate))
    } else if is_mate_spec(t, g2.state) && count_of(g.oute_kyokumen_map.view_of_side(t), g2.mhash, g2.shash) > 0 {
        Some(SelfMatchGameEndState::Foul(t, FoulKind::SennichiteOu))
    } else if count_of(g.kyokumen_map.view_of_side(t), g2.mhash, g2.shash) >= 3 {
        Some(SelfMatchGameEndState::Foul(t, FoulKind::Sennichite))
    } else {
        None
    }
}

/// The count of the position after side `t` reached it: one more while `t`
/// keeps checking, nothing left once it does not.
pub open spec fn oute_map_after(t: Teban, g: SelfMatchGame, g2: SelfMatchGame) -> Map<(u64, u64), u32> {
    if is_mate_spec(t, g2.state) {
        g.oute_kyokumen_map.view_of_side(t).insert((g2.mhash, g2.shash),
            (count_of(g.oute_kyokumen_map.view_of_side(t), g2.mhash, g2.shash) + 1) as u32)
    } else {
        Map::empty()
    }
}

/// The maps of `g2` record that side `g.teban` reached its position in `g`'s
/// maps: the checking run updated, and the position counted once more when
/// `count` holds.
pub open spec fn maps_recorded(g: SelfMatchGame, g2: SelfMatchGame, count: bool) -> bool {
    let t = g.teban;
    &&& g2.oute_kyokumen_map.view_of_side(t) == oute_map_after(t, g, g2)
    &&& g2.oute_kyokumen_map.view_of_side(opposite_of(t)) == g.oute_kyokumen_map.view_of_side(opposite_of(t))
    &&& (count ==> g2.kyokumen_map.view_of_side(t) == g.kyokumen_map.view_of_side(t).insert((g2.mhash, g2.shash),
        (count_of(g.kyokumen_map.view_of_side(t), g2.mhash, g2.shash) + 1) as u32))
    &&& (!count ==> g2.kyokumen_map == g.kyokumen_map)
    &&& g2.kyokumen_map.view_of_side(opposite_of(t)) == g.kyokumen_map.view_of_side(opposite_of(t))
}

/// `g2` is what `replay` makes of `g` when it plays `m`: the move within the
/// tables, the position after it reached and recorded in the maps, the side
/// to move changed.
pub open spec fn replay_step(g: SelfMatchGame, hasher: KyokumenHash, m: AppliedMove, g2: SelfMatchGame) -> bool {
    &&& step_fits(g, hasher, m)
    &&& played(g, hasher, m, g2)
    &&& maps_recorded(g, g2, true)
    &&& g2.teban == opposite_of(g.teban)
}

/// `g2` is `g` after the moves `ms` are played in turn from it as `replay`
/// plays them, through the games `gs` (`gs[i]` before the `i`-th move).
pub open spec fn replay_chain(g: SelfMatchGame, hasher: KyokumenHash, ms: Seq<AppliedMove>, gs: Seq<SelfMatchGame>,
    g2: SelfMatchGame) -> bool {
    &&& gs.len() == ms.len() + 1
    &&& gs[0] == g
    &&& gs[ms.len() as int] == g2
    &&& forall|i: int| 0 <= i < ms.len() ==> #[trigger] replay_step(gs[i], hasher, ms[i], gs[i + 1])
}

/// `g2` is `g` after the moves `ms` are played in turn from it as `replay` plays them.
pub open spec fn replayed(g: SelfMatchGame, hasher: KyokumenHash, ms: Seq<AppliedMove>, g2: SelfMatchGame) -> bool {
    exists|gs: Seq<SelfMatchGame>| #[trigger] replay_chain(g, hasher, ms, gs, g2)
}

/// No move played leaves the game as it is.
proof fn lemma_replayed_none(g: SelfMatchGame, hasher: KyokumenHash)
    ensures
        replayed(g, hasher, Seq::<AppliedMove>::empty(), g),
{
    let gs = seq![g];
    assert(replay_chain(g, hasher, Seq::<AppliedMove>::empty(), gs, g));
}

/// One more move played as `replay` plays it extends a replay by that move.
proof fn lemma_replayed_step(g: SelfMatchGame, hasher: KyokumenHash, ms: Seq<AppliedMove>, mid: SelfMatchGame,
    m: AppliedMove, g2: SelfMatchGame)
    requires
        replayed(g, hasher, ms, mid),
        replay_step(mid, hasher, m, g2),
    ensures
        replayed(g, hasher, ms.push(m), g2),
{
    let gs = choose|gs: Seq<SelfMatchGame>| #[trigger] replay_chain(g, hasher, ms, gs, mid);
    let gs2 = gs.push(g2);
    let ms2 = ms.push(m);
    assert forall|i: int| 0 <= i < ms2.len() implies #[trigger] replay_step(gs2[i], hasher, ms2[i], gs2[i + 1]) by {
        if i < ms.len() {
            assert(gs2[i] == gs[i]);
            assert(gs2[i + 1] == gs[i + 1]);
            assert(ms2[i] == ms[i]);
            assert(replay_step(gs[i], hasher, ms[i], gs[i + 1]));
        } else {
            assert(gs2[i] == mid);
            assert(gs2[i + 1] == g2);
        }
    }
    assert(replay_chain(g, hasher, ms2, gs2, g2));
}

/// What a reply `bm` of the engine to move requires of the referee's
/// tables: moves that convert to squares, and a valid move within the tables.
pub open spec fn judge_fits(g: SelfMatchGame, hasher: KyokumenHash, bm: BestMove) -> bool {
    match bm {
        BestMove::Move(mv, pm) => {
            &&& move_convertible(mv)
            &&& (pm matches Some(p) ==> move_convertible(p))
            &&& (valid_move_spec(g.state, g.teban, g.mc, applied_of_move(mv)) ==> step_fits(g, hasher, applied_of_move(mv)))
        },
        _ => true,
    }
}

impl SelfMatchGame {
    /// The tables are well formed and the bitboards stay within the board.
    pub open spec fn wf(&self) -> bool {
        &&& self.kyokumen_map.wf()
        &&& self.oute_kyokumen_map.wf()
        &&& parts_within(self.state.part_spec())
    }

    /// Whether the counts of `mc` are covered by the hash seeds.
    pub fn hands_fit(mc: &MochigomaCollections) -> (r: bool)
        ensures
            r == hands_within_seeds(*mc),
    {
        match mc {
            MochigomaCollections::Pair(ms, mg) => {
                proof {
                    crate::shogi::lemma_mochigoma_len(*ms);
                    crate::shogi::lemma_mochigoma_len(*mg);
                }
                let mut i: u32 = 0;
                while i < 7
                    invariant
                        i <= 7,
                        *mc == MochigomaCollections::Pair(*ms, *mg),
                        ms@.len() == 7,
                        mg@.len() == 7,
                        forall|j: int| 0 <= j < i ==> #[trigger] hand_of(*mc, Teban::Sente)[j] <= MOCHIGOMA_MAX
                            && hand_of(*mc, Teban::Gote)[j] <= MOCHIGOMA_MAX,
                    decreases 7 - i,
                {
                    let k = MochigomaKind::from_index(i);
                    let a = ms.get(k);
                    let b = mg.get(k);
                    if a as usize > MOCHIGOMA_MAX || b as usize > MOCHIGOMA_MAX {
                        proof {
                            let ii = i as int;
                            assert(hand_of(*mc, Teban::Sente)[ii] == a && hand_of(*mc, Teban::Gote)[ii] == b);
                        }
                        return false;
                    }
                    i = i + 1;
                }
                true
            },
            MochigomaCollections::Empty => true,
        }
    }

    /// A game starting from `banmen` with side `teban` to move and the hands
    /// `mc`: nothing met yet and no move played.
    pub fn new(hasher: &KyokumenHash, teban: Teban, banmen: Banmen, mc: MochigomaCollections) -> (r: SelfMatchGame)
        requires
            hasher.wf(),
            hands_within_seeds(mc),
        ensures
            r.wf(),
            r.state.wf(),
            r.state.banmen_spec() == banmen,
            r.teban == teban,
            r.mc == mc,
            (r.mhash, r.shash) == hasher.initial_hash_spec(banmen, hashed_hands(teban, mc).0, hashed_hands(teban, mc).1),
            r.kyokumen_map.view_of_side(Teban::Sente) == Map::<(u64, u64), u32>::empty(),
            r.kyokumen_map.view_of_side(Teban::Gote) == Map::<(u64, u64), u32>::empty(),
            r.oute_kyokumen_map.view_of_side(Teban::Sente) == Map::<(u64, u64), u32>::empty(),
            r.oute_kyokumen_map.view_of_side(Teban::Gote) == Map::<(u64, u64), u32>::empty(),
            r.moves@ == Seq::<AppliedMove>::empty(),
    {
        let (ms, mg) = match mc {
            MochigomaCollections::Pair(ms, mg) => match teban {
                Teban::Sente => (ms, mg),
                Teban::Gote => (mg, ms),
            },
            MochigomaCollections::Empty => (Mochigoma::new(), Mochigoma::new()),
        };
        proof {
            assert(ms@ == hashed_hands(teban, mc).0 && mg@ == hashed_hands(teban, mc).1);
            assert forall|i: int| 0 <= i < 7 implies #[trigger] ms@[i] <= MOCHIGOMA_MAX && mg@[i] <= MOCHIGOMA_MAX by {
                assert(hand_of(mc, Teban::Sente)[i] <= MOCHIGOMA_MAX && hand_of(mc, Teban::Gote)[i] <= MOCHIGOMA_MAX);
            }
        }
        let (mhash, shash) = hasher.calc_initial_hash(&banmen, &ms, &mg);
        let state = State::new(banmen);
        proof {
            lemma_wf_parts_within(state);
        }
        SelfMatchGame {
            teban,
            state,
            mc,
            mhash,
            shash,
            kyokumen_map: KyokumenMap::new(),
            oute_kyokumen_map: KyokumenMap::new(),
            moves: Vec::new(),
        }
    }
}

impl SelfMatchGame {
    /// Judges the reply `bm` of the engine to move (side `self.teban`), with
    /// `limit` the deadline of its turn and `now` the time, in milliseconds.
    /// Resigning loses and aborting abandons the game; a declaration wins if
    /// it is a valid declaration and loses otherwise; an invalid move loses.
    /// A valid move is played; then the first of the endings of
    /// `move_outcome` that applies ends the game, and otherwise the move
    /// stands and the other side is to move.
    pub fn judge(&mut self, hasher: &KyokumenHash, bm: BestMove, limit: &Option<u64>, now: u64) -> (r: Judgement)
        requires
            old(self).wf(),
            hasher.wf(),
            judge_fits(*old(self), *hasher, bm),
        ensures
            final(self).wf(),
            match bm {
                BestMove::Resign => r == Judgement::GameEnd(SelfMatchGameEndState::Resign(old(self).teban))
                    && *final(self) == *old(self),
                BestMove::Abort => r == Judgement::Abort && *final(self) == *old(self),
                BestMove::Win => r == Judgement::GameEnd(
                        if nyugyoku_spec(old(self).state, old(self).teban, old(self).mc, *limit, now) {
                            SelfMatchGameEndState::NyuGyokuWin(old(self).teban)
                        } else {
                            SelfMatchGameEndState::NyuGyokuLose(old(self).teban)
                        })
                    && *final(self) == *old(self),
                BestMove::Move(mv, pm) => {
                    let m = applied_of_move(mv);
                    if !valid_move_spec(old(self).state, old(self).teban, old(self).mc, m) {
                        &&& r == Judgement::GameEnd(SelfMatchGameEndState::Foul(old(self).teban, FoulKind::InvalidMove))
                        &&& final(self).moves@ == old(self).moves@.push(m)
                        &&& final(self).teban == old(self).teban
                        &&& final(self).state == old(self).state
                        &&& final(self).mc == old(self).mc
                        &&& final(self).mhash == old(self).mhash
                        &&& final(self).shash == old(self).shash
                        &&& final(self).kyokumen_map == old(self).kyokumen_map
                        &&& final(self).oute_kyokumen_map == old(self).oute_kyokumen_map
                    } else {
                        let e = move_outcome(*old(self), *final(self), m);
                        let t = old(self).teban;
                        &&& played(*old(self), *hasher, m, *final(self))
                        &&& (e matches Some(end) ==> r == Judgement::GameEnd(end) && final(self).teban == t)
                        &&& (e is None ==> r == Judgement::Continue(match pm { Some(p) => Some(applied_of_move(p)), None => None })
                            && final(self).teban == opposite_of(t))
                        &&& (e is None || e == Some(SelfMatchGameEndState::Foul(t, FoulKind::Sennichite))
                            ==> maps_recorded(*old(self), *final(self), e is None))
                        &&& (!(e is None || e == Some(SelfMatchGameEndState::Foul(t, FoulKind::Sennichite)))
                            ==> final(self).kyokumen_map == old(self).kyokumen_map
                                && final(self).oute_kyokumen_map == old(self).oute_kyokumen_map)
                    }
                },
            },
    {
        let t = self.teban;
        let o = t.opposite();
        match bm {
            BestMove::Resign => Judgement::GameEnd(SelfMatchGameEndState::Resign(t)),
            BestMove::Abort => Judgement::Abort,
            BestMove::Win => {
                if Rule::is_nyugyoku_win(&self.state, t, &self.mc, limit, now) {
                    Judgement::GameEnd(SelfMatchGameEndState::NyuGyokuWin(t))
                } else {
                    Judgement::GameEnd(SelfMatchGameEndState::NyuGyokuLose(t))
                }
            },
            BestMove::Move(mv, pm) => {
                let m = mv.to_applied_move();
                let ghost g0 = *self;
                match Rule::apply_valid_move(&self.state, t, &self.mc, m) {
                    Err(_) => {
                        self.moves.push(m);
                        Judgement::GameEnd(SelfMatchGameEndState::Foul(t, FoulKind::InvalidMove))
                    },
                    Ok((next, nmc, obtained)) => {
                        proof {
                            crate::rule::game::lemma_parts_ou_within(self.state.part_spec());
                        }
                        let is_win = Rule::is_win(&self.state, t, m);
                        let in_check = Rule::is_mate(o, &self.state);
                        let mhash = hasher.calc_main_hash(self.mhash, t, self.state.get_banmen(), &self.mc, m, &obtained);
                        let shash = hasher.calc_sub_hash(self.shash, t, self.state.get_banmen(), &self.mc, m, &obtained);
                        proof {
                            let p = g0.state.part_spec();
                            let b = g0.state.banmen_spec();
                            assert forall|f: int| 0 <= f < 22 implies
                                crate::rule::movegen::within_board(#[trigger] field_board(next.part_spec(), f)) by {
                                assert(crate::rule::movegen::within_board(field_board(p, f)));
                                lemma_field_after_within(p, b, t, m, f);
                            }
                        }
                        self.state = next;
                        self.mc = nmc;
                        self.mhash = mhash;
                        self.shash = shash;
                        self.moves.push(m);
                        proof {
                            crate::rule::game::lemma_parts_ou_within(self.state.part_spec());
                        }
                        if is_win {
                            return Judgement::GameEnd(SelfMatchGameEndState::Win(t));
                        }
                        if Rule::is_mate(o, &self.state) {
                            let foul = if in_check { FoulKind::NotRespondedOute } else { FoulKind::Suicide };
                            return Judgement::GameEnd(SelfMatchGameEndState::Foul(t, foul));
                        }
                        if Rule::is_put_fu_and_mate(&self.state, t, &self.mc, m) {
                            return Judgement::GameEnd(SelfMatchGameEndState::Foul(t, FoulKind::PutFuAndMate));
                        }
                        if Rule::is_sennichite_by_oute(&self.state, t, mhash, shash, &self.oute_kyokumen_map) {
                            return Judgement::GameEnd(SelfMatchGameEndState::Foul(t, FoulKind::SennichiteOu));
                        }
                        Rule::update_sennichite_by_oute_map(&self.state, t, mhash, shash, &mut self.oute_kyokumen_map);
                        if Rule::is_sennichite(&self.state, t, mhash, shash, &self.kyokumen_map) {
                            return Judgement::GameEnd(SelfMatchGameEndState::Foul(t, FoulKind::Sennichite));
                        }
                        Rule::update_sennichite_map(&self.state, t, mhash, shash, &mut self.kyokumen_map);
                        self.teban = o;
                        let reply = match pm {
                            Some(p) => Some(p.to_applied_move()),
                            None => None,
                        };
                        Judgement::Continue(reply)
                    },
                }
            },
        }
    }
}

/// Whether converting a position (column from the right, row from the top)
/// to a square stays within `u32`.
fn position_fits(px: u32, py: u32) -> (r: bool)
    ensures
        r == crate::rule::position_convertible(px, py),
{
    if px > 9 || py < 1 {
        return false;
    }
    let a: u64 = ((9 - px) as u64) * 9 + ((py - 1) as u64);
    a <= u32::MAX as u64
}

/// Whether a move converts to an applied move.
pub fn move_fits(m: &crate::shogi::Move) -> (r: bool)
    ensures
        r == move_convertible(*m),
{
    match m {
        crate::shogi::Move::To(crate::shogi::KomaSrcPosition(sx, sy), crate::shogi::KomaDstToPosition(dx, dy, _)) =>
            position_fits(*sx, *sy) && position_fits(*dx, *dy),
        crate::shogi::Move::Put(_, crate::shogi::KomaDstPutPosition(x, y)) => position_fits(*x, *y),
    }
}

impl SelfMatchGame {
    /// The piece that goes to the mover's hand when `m` is played.
    fn obtained_of(&self, m: AppliedMove) -> (r: Option<MochigomaKind>)
        requires
            move_on_board(m),
        ensures
            r == obtained_of_move(self.state.banmen_spec(), m),
    {
        match m {
            AppliedMove::To(mt) => {
                let src = mt.src();
                let dst = mt.dst();
                if src == dst {
                    return None;
                }
                proof {
                    crate::rule::apply::lemma_square_split_pub(dst as int);
                }
                let kind = self.state.get_banmen().0[(dst % 9) as usize][(dst / 9) as usize];
                match MochigomaKind::try_from_koma(kind) {
                    Ok(k) => Some(k),
                    Err(_) => None,
                }
            },
            AppliedMove::Put(_) => None,
        }
    }

    /// The count in side `t`'s hand of kind `k`.
    fn hand_count(&self, t: Teban, k: MochigomaKind) -> (r: u32)
        ensures
            r == hand_of(self.mc, t)[mochigoma_index(k)],
            r == KyokumenHash::hand_count(self.mc, t, k),
    {
        match &self.mc {
            MochigomaCollections::Pair(ms, mg) => if t == Teban::Sente { ms.get(k) } else { mg.get(k) },
            MochigomaCollections::Empty => 0,
        }
    }

    /// Whether playing `m` stays within the tables (`step_fits`).
    pub fn step_fits(&self, hasher: &KyokumenHash, m: AppliedMove) -> (r: bool)
        requires
            self.wf(),
            hasher.wf(),
        ensures
            r == step_fits(*self, *hasher, m),
    {
        let t = self.teban;
        let on_board = match m {
            AppliedMove::To(mt) => mt.src() < 81 && mt.dst() < 81,
            AppliedMove::Put(mp) => mp.dst() < 81,
        };
        if !on_board {
            return false;
        }
        let obtained = self.obtained_of(m);
        match obtained {
            Some(k) => {
                if self.hand_count(t, k) == u32::MAX {
                    return false;
                }
            },
            None => {},
        }
        let seeds_cover = match m {
            AppliedMove::To(_) => match obtained {
                Some(k) => (self.hand_count(t, k) as usize) < MOCHIGOMA_MAX,
                None => true,
            },
            AppliedMove::Put(mp) => (self.hand_count(t, mp.kind()) as usize) <= MOCHIGOMA_MAX,
        };
        if !seeds_cover {
            return false;
        }
        let mhash = hasher.calc_main_hash(self.mhash, t, self.state.get_banmen(), &self.mc, m, &obtained);
        let shash = hasher.calc_sub_hash(self.shash, t, self.state.get_banmen(), &self.mc, m, &obtained);
        let c = match self.kyokumen_map.get(t, &mhash, &shash) {
            Some(c) => *c,
            None => 0,
        };
        let oc = match self.oute_kyokumen_map.get(t, &mhash, &shash) {
            Some(c) => *c,
            None => 0,
        };
        c < u32::MAX && oc < u32::MAX
    }

    /// Whether the reply `bm` stays within the tables (`judge_fits`).
    pub fn judge_fits(&self, hasher: &KyokumenHash, bm: &BestMove) -> (r: bool)
        requires
            self.wf(),
            hasher.wf(),
        ensures
            r == judge_fits(*self, *hasher, *bm),
    {
        match bm {
            BestMove::Move(mv, pm) => {
                if !move_fits(mv) {
                    return false;
                }
                match pm {
                    Some(p) => {
                        if !move_fits(p) {
                            return false;
                        }
                    },
                    None => {},
                }
                let m = mv.to_applied_move();
                if Rule::is_valid_move(&self.state, self.teban, &self.mc, m) {
                    self.step_fits(hasher, m)
                } else {
                    true
                }
            },
            _ => true,
        }
    }

    /// Plays `m` for the side to move without judging it, counting the
    /// position reached (and, while the mover checks, its run of checks).
    pub fn replay(&mut self, hasher: &KyokumenHash, m: AppliedMove)
        requires
            old(self).wf(),
            hasher.wf(),
            step_fits(*old(self), *hasher, m),
        ensures
            final(self).wf(),
            played(*old(self), *hasher, m, *final(self)),
            maps_recorded(*old(self), *final(self), true),
            final(self).teban == opposite_of(old(self).teban),
    {
        let t = self.teban;
        let ghost g0 = *self;
        let (next, nmc, obtained) = Rule::apply_move_none_check(&self.state, t, &self.mc, m);
        let mhash = hasher.calc_main_hash(self.mhash, t, self.state.get_banmen(), &self.mc, m, &obtained);
        let shash = hasher.calc_sub_hash(self.shash, t, self.state.get_banmen(), &self.mc, m, &obtained);
        proof {
            let p = g0.state.part_spec();
            let b = g0.state.banmen_spec();
            assert forall|f: int| 0 <= f < 22 implies
                crate::rule::movegen::within_board(#[trigger] field_board(next.part_spec(), f)) by {
                assert(crate::rule::movegen::within_board(field_board(p, f)));
                lemma_field_after_within(p, b, t, m, f);
            }
        }
        self.state = next;
        self.mc = nmc;
        self.mhash = mhash;
        self.shash = shash;
        self.moves.push(m);
        proof {
            crate::rule::game::lemma_parts_ou_within(self.state.part_spec());
        }
        Rule::update_sennichite_map(&self.state, t, mhash, shash, &mut self.kyokumen_map);
        Rule::update_sennichite_by_oute_map(&self.state, t, mhash, shash, &mut self.oute_kyokumen_map);
        self.teban = t.opposite();
    }

    /// Plays the moves of `moves` in turn with `replay`, stopping before the
    /// first one that does not stay within the tables; the number played.
    pub fn replay_moves(&mut self, hasher: &KyokumenHash, moves: &Vec<AppliedMove>) -> (r: usize)
        requires
            old(self).wf(),
            hasher.wf(),
        ensures
            final(self).wf(),
            r <= moves.len(),
            final(self).moves@ == old(self).moves@ + moves@.subrange(0, r as int),
            r < moves.len() ==> !step_fits(*final(self), *hasher, moves@[r as int]),
            final(self).teban == (if r % 2 == 0 { old(self).teban } else { opposite_of(old(self).teban) }),
            replayed(*old(self), *hasher, moves@.subrange(0, r as int), *final(self)),
    {
        let mut i: usize = 0;
        proof {
            assert(moves@.subrange(0, 0) =~= Seq::<AppliedMove>::empty());
            lemma_replayed_none(*old(self), *hasher);
        }
        while i < moves.len()
            invariant
                i <= moves.len(),
                self.wf(),
                hasher.wf(),
                replayed(*old(self), *hasher, moves@.subrange(0, i as int), *self),
                self.moves@ == old(self).moves@ + moves@.subrange(0, i as int),
                self.teban == (if i % 2 == 0 { old(self).teban } else { opposite_of(old(self).teban) }),
            decreases moves.len() - i,
        {
            if !self.step_fits(hasher, moves[i]) {
                return i;
            }
            let ghost mid = *self;
            self.replay(hasher, moves[i]);
            proof {
                lemma_replayed_step(*old(self), *hasher, moves@.subrange(0, i as int), mid, moves@[i as int], *self);
                assert(moves@.subrange(0, i as int).push(moves@[i as int]) =~= moves@.subrange(0, i + 1));
                assert(moves@.subrange(0, i as int).push(moves@[i as int]) =~= moves@.subrange(0, i + 1));
                assert(opposite_of(opposite_of(old(self).teban)) == old(self).teban);
            }
            i = i + 1;
        }
        i
    }
}

/// What to ask of the engine to move at the start of its turn, given the
/// reply it pondered and the move just played.
pub fn ponder_action(ponder: Option<AppliedMove>, prev_move: Option<AppliedMove>) -> (r: PonderAction)
    ensures
        ponder is None ==> r == PonderAction::StartThink,
        ponder is Some && ponder == prev_move ==> r == PonderAction::PonderHit,
        ponder is Some && ponder != prev_move ==> r == PonderAction::PonderMiss,
{
    match ponder {
        None => PonderAction::StartThink,
        Some(p) => match prev_move {
            Some(q) if p == q => PonderAction::PonderHit,
            _ => PonderAction::PonderMiss,
        },
    }
}

/// What ends the wait for a reply, and when (milliseconds): the deadline of
/// the turn, unless the running time of all the games ends first.
pub fn turn_deadline(limit: Option<u64>, uptime_end: Option<u64>) -> (r: (TimeoutKind, Option<u64>))
    ensures
        r == (match (limit, uptime_end) {
            (Some(cl), Some(u)) => if u < cl { (TimeoutKind::Uptime, Some(u)) } else { (TimeoutKind::Turn, Some(cl)) },
            (Some(cl), None) => (TimeoutKind::Turn, Some(cl)),
            (None, Some(u)) => (TimeoutKind::Uptime, Some(u)),
            (None, None) => (TimeoutKind::Never, None),
        }),
{
    match limit {
        Some(cl) => match uptime_end {
            Some(u) => if u < cl { (TimeoutKind::Uptime, Some(u)) } else { (TimeoutKind::Turn, Some(cl)) },
            None => (TimeoutKind::Turn, Some(cl)),
        },
        None => match uptime_end {
            Some(u) => (TimeoutKind::Uptime, Some(u)),
            None => (TimeoutKind::Never, None),
        },
    }
}

/// Whether another game starts: no quit was asked, fewer games than asked
/// for were played, and the running time is not used up.
pub fn may_start_game(quit: bool, game_count: u32, number_of_games: Option<u32>, elapsed: u64, uptime: Option<u64>) -> (r: bool)
    ensures
        r == (!quit && (match number_of_games { Some(n) => game_count < n, None => true })
            && (match uptime { Some(u) => elapsed < u, None => true })),
{
    !quit && (match number_of_games { Some(n) => game_count < n, None => true })
        && (match uptime { Some(u) => elapsed < u, None => true })
}

impl SelfMatchGameEndState {
    /// The side that won the game, if any: a won game, a valid declaration
    /// for the side that ended it; resigning, an invalid declaration, a foul
    /// or running out of time for its opponent.
    pub fn winner(&self) -> (r: Option<Teban>)
        ensures
            r == (match *self {
                SelfMatchGameEndState::Win(t) | SelfMatchGameEndState::NyuGyokuWin(t) => Some(t),
                SelfMatchGameEndState::Resign(t) | SelfMatchGameEndState::NyuGyokuLose(t)
                    | SelfMatchGameEndState::Foul(t, _) | SelfMatchGameEndState::Timeover(t) => Some(opposite_of(t)),
                SelfMatchGameEndState::Draw => None,
            }),
    {
        match self {
            SelfMatchGameEndState::Win(t) | SelfMatchGameEndState::NyuGyokuWin(t) => Some(*t),
            SelfMatchGameEndState::Resign(t) | SelfMatchGameEndState::NyuGyokuLose(t)
                | SelfMatchGameEndState::Foul(t, _) | SelfMatchGameEndState::Timeover(t) => Some(t.opposite()),
            SelfMatchGameEndState::Draw => None,
        }
    }
}

/// The text of the moves `m` as a game record writes them, or the error
/// writing them gives.
pub open spec fn record_moves(m: Seq<crate::shogi::Move>) -> Result<Seq<char>, SfenStringConvertError> {
    match moves_text(m) {
        Ok(t) => Ok(t),
        Err(e) => Err(SfenStringConvertError::ToMoveString(ToMoveStringConvertError::CharConvert(DanConvertError(e)))),
    }
}

/// The record of a game from the start position `initial`, split on spaces
/// into the words `w`, and the moves `m`: `sfen` with the four fields of the
/// position, or `startpos`, followed by `moves` and the moves when there are
/// any; any other start is refused.
pub open spec fn record_text(w: Seq<Seq<char>>, initial: Seq<char>, m: Seq<crate::shogi::Move>) -> Result<Seq<char>, SfenStringConvertError> {
    if w.len() >= 5 && w[0] == "sfen"@ {
        let head = "sfen "@ + w[1] + " "@ + w[2] + " "@ + w[3] + " "@ + w[4];
        if m.len() > 0 {
            match record_moves(m) {
                Ok(t) => Ok(head + " moves "@ + t),
                Err(e) => Err(e),
            }
        } else {
            Ok(head)
        }
    } else if w.len() >= 1 && w[0] == "startpos"@ {
        if m.len() > 0 {
            match record_moves(m) {
                Ok(t) => Ok("startpos moves "@ + t),
                Err(e) => Err(e),
            }
        } else {
            Ok("startpos"@)
        }
    } else {
        Err(SfenStringConvertError::InvalidFormat(arbitrary()))
    }
}

/// Appends `t`.
fn append_str(s: &mut String, t: &str)
    ensures
        final(s)@ == old(s)@ + t@,
{
    s.append(t);
}

/// The record of a game from the position `initial` (split on spaces into
/// `words`) with the moves `m` (`record_text`; a refused start is reported
/// with `initial`).
pub fn kifu_sfen(words: &[&str], initial: &str, m: &Vec<crate::shogi::Move>) -> (r: Result<String, SfenStringConvertError>)
    requires
        m.to_sfen_requires(),
    ensures
        match record_text(params_view(words@), initial@, m@) {
            Ok(t) => r matches Ok(s) && s@ == t,
            Err(SfenStringConvertError::InvalidFormat(_)) => r matches Err(SfenStringConvertError::InvalidFormat(x)) && x@ == initial@,
            Err(e) => r == Err::<String, SfenStringConvertError>(e),
        },
{
    let ghost w = params_view(words@);
    let n = words.len();
    proof {
        if n > 0 { assert(w[0] == words@[0]@); }
        if n > 4 {
            assert(w[1] == words@[1]@);
            assert(w[2] == words@[2]@);
            assert(w[3] == words@[3]@);
            assert(w[4] == words@[4]@);
        }
    }
    let sfen = n >= 5 && str_eq(words[0], "sfen");
    if !sfen && !(n >= 1 && str_eq(words[0], "startpos")) {
        return Err(SfenStringConvertError::InvalidFormat(str_to_string(initial)));
    }
    proof {
        reveal_strlit("sfen ");
        reveal_strlit(" ");
        reveal_strlit("startpos");
        reveal_strlit(" moves ");
        reveal_strlit("startpos moves ");
    }
    let mut s = String::new();
    if sfen {
        append_str(&mut s, "sfen ");
        append_str(&mut s, words[1]);
        append_str(&mut s, " ");
        append_str(&mut s, words[2]);
        append_str(&mut s, " ");
        append_str(&mut s, words[3]);
        append_str(&mut s, " ");
        append_str(&mut s, words[4]);
        assert(s@ =~= "sfen "@ + w[1] + " "@ + w[2] + " "@ + w[3] + " "@ + w[4]);
    } else {
        append_str(&mut s, "startpos");
        assert(s@ =~= "startpos"@);
    }
    let ghost head = s@;
    if m.len() > 0 {
        match m.to_sfen() {
            Ok(t) => {
                append_str(&mut s, " moves ");
                append_str(&mut s, t.as_str());
                assert(s@ =~= head + " moves "@ + t@);
                assert(record_moves(m@) == Ok::<Seq<char>, SfenStringConvertError>(t@));
                if sfen {
                    assert(head == "sfen "@ + w[1] + " "@ + w[2] + " "@ + w[3] + " "@ + w[4]);
                } else {
                    assert(head == "startpos"@);
                }
                if !sfen {
                    assert("startpos moves "@ =~= "startpos"@ + " moves "@);
                }
                assert(record_text(w, initial@, m@) == Ok::<Seq<char>, SfenStringConvertError>(s@));
            },
            Err(e) => {
                return Err(SfenStringConvertError::from_move_string(e));
            },
        }
    }
    assert(record_text(w, initial@, m@) == Ok::<Seq<char>, SfenStringConvertError>(s@));
    Ok(s)
}

} // verus!
