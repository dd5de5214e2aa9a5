//! The decisions of the protocol loop of an engine: what each event of the
//! GUI asks of the player and which answers go out, kept apart from the
//! threads and the I/O that carry them out.
use vstd::prelude::*;
use crate::OnAcceptMove;
use crate::command::{BestMove, CheckMate, UsiCommand, UsiOptType};
use crate::event::{UsiGo, UsiGoTimeLimit, UsiGoMateTimeLimit, UserEvent, GameEndState, UsiInitialPosition};
use crate::shogi::{Banmen, Mochigoma, MochigomaCollections, banmen_grid};
use crate::rule::{banmen_start_pos, start_grid};

verus! {

/// The state of the protocol loop: whether a search runs, whether it is
/// pondering, whether a move found may be sent at once, the move kept while
/// pondering, the time the next search counts from (when the GUI stopped a
/// ponder), and whether the player has quit.
#[derive(Clone, Copy, Debug)]
pub struct AgentState {
    /// A search runs.
    pub busy: bool,
    /// The running search ponders.
    pub in_ponder: bool,
    /// A move found by a held search may be sent as soon as it is found.
    pub allow_immediate_move: bool,
    /// The move a held search found before the GUI asked for it.
    pub pending: OnAcceptMove,
    /// The time (milliseconds) the next search counts its time from.
    pub think_start_time: Option<u64>,
    /// The player has quit.
    pub quit_ready: bool,
}

/// What the protocol loop carries out for a decision.
#[derive(Clone, Copy, Debug)]
pub enum AgentAction {
    /// Drop the events queued for the search.
    ClearUserEvents,
    /// Queue an event for the running search.
    PushUserEvent(UserEvent),
    /// Search with the limit, counting time from the given start
    /// (milliseconds); a held search keeps its move until the GUI asks for it.
    StartThink(u64, UsiGoTimeLimit, bool),
    /// Ponder with the limit; its move is held.
    StartPonder(UsiGoTimeLimit),
    /// Search for a mate with the limit.
    StartMate(UsiGoMateTimeLimit),
    /// Send the move.
    SendBestMove(BestMove),
    /// Tell the player the game is over.
    GameOver(GameEndState),
    /// Tell the player to quit, then report that it has.
    Quit,
}

/// The move kept while pondering, once asked for: sent if there is one.
pub open spec fn release_actions(pending: OnAcceptMove) -> Seq<AgentAction> {
    match pending {
        OnAcceptMove::Accepted(m) => seq![AgentAction::SendBestMove(m)],
        OnAcceptMove::Nothing => Seq::empty(),
    }
}

impl AgentState {
    /// The state before any event: nothing runs and nothing is kept.
    pub fn new() -> (r: AgentState)
        ensures
            r == (AgentState {
                busy: false,
                in_ponder: false,
                allow_immediate_move: false,
                pending: OnAcceptMove::Nothing,
                think_start_time: None,
                quit_ready: false,
            }),
    {
        AgentState {
            busy: false,
            in_ponder: false,
            allow_immediate_move: false,
            pending: OnAcceptMove::Nothing,
            think_start_time: None,
            quit_ready: false,
        }
    }

    /// `usinewgame`: the next search counts its time from its own start.
    pub fn on_new_game(&mut self)
        ensures
            *final(self) == (AgentState { think_start_time: None, ..*old(self) }),
    {
        self.think_start_time = None;
    }

    /// `go` at time `now`: a search starts, the queued events are dropped,
    /// and the search counts its time from the end of the last ponder, or
    /// from `now`. A ponder and an infinite search hold their move until the
    /// GUI asks for it; an infinite search counts from `now`.
    pub fn on_go(&mut self, go: UsiGo, now: u64) -> (r: Vec<AgentAction>)
        ensures
            ({
                let start = match old(self).think_start_time { Some(s) => s, None => now };
                let held = go matches UsiGo::Ponder(_) || go == UsiGo::Go(UsiGoTimeLimit::Infinite);
                &&& final(self).busy
                &&& final(self).in_ponder == (go is Ponder)
                &&& final(self).allow_immediate_move == (if held { false } else { old(self).allow_immediate_move })
                &&& final(self).pending == old(self).pending
                &&& final(self).think_start_time == None::<u64>
                &&& final(self).quit_ready == old(self).quit_ready
                &&& r@ == seq![AgentAction::ClearUserEvents, match go {
                    UsiGo::Ponder(l) => AgentAction::StartPonder(l),
                    UsiGo::Go(UsiGoTimeLimit::Infinite) => AgentAction::StartThink(now, UsiGoTimeLimit::Infinite, true),
                    UsiGo::Go(l) => AgentAction::StartThink(start, l, false),
                    UsiGo::Mate(l) => AgentAction::StartMate(l),
                }]
            }),
    {
        self.busy = true;
        let start = match self.think_start_time {
            Some(s) => s,
            None => now,
        };
        self.think_start_time = None;
        let mut r: Vec<AgentAction> = Vec::new();
        r.push(AgentAction::ClearUserEvents);
        match go {
            UsiGo::Ponder(l) => {
                self.in_ponder = true;
                self.allow_immediate_move = false;
                r.push(AgentAction::StartPonder(l));
            },
            UsiGo::Go(UsiGoTimeLimit::Infinite) => {
                self.in_ponder = false;
                self.allow_immediate_move = false;
                r.push(AgentAction::StartThink(now, UsiGoTimeLimit::Infinite, true));
            },
            UsiGo::Go(l) => {
                self.in_ponder = false;
                r.push(AgentAction::StartThink(start, l, false));
            },
            UsiGo::Mate(l) => {
                self.in_ponder = false;
                r.push(AgentAction::StartMate(l));
            },
        }
        r
    }

    /// The move found by a search: the search is over; an aborted search
    /// sends nothing, a held move is kept until the GUI asks for it unless
    /// it already did, any other move is sent.
    pub fn on_best_move(&mut self, bm: BestMove, held: bool) -> (r: Option<BestMove>)
        ensures
            !final(self).busy,
            bm == BestMove::Abort ==> r == None::<BestMove> && final(self).pending == old(self).pending,
            bm != BestMove::Abort && (!held || old(self).allow_immediate_move) ==>
                r == Some(bm) && final(self).pending == old(self).pending,
            bm != BestMove::Abort && held && !old(self).allow_immediate_move ==>
                r == None::<BestMove> && final(self).pending == OnAcceptMove::Accepted(bm),
            final(self).in_ponder == old(self).in_ponder,
            final(self).allow_immediate_move == old(self).allow_immediate_move,
            final(self).think_start_time == old(self).think_start_time,
            final(self).quit_ready == old(self).quit_ready,
    {
        self.busy = false;
        if bm == BestMove::Abort {
            return None;
        }
        if held && !self.allow_immediate_move {
            self.pending = OnAcceptMove::new(bm);
            None
        } else {
            Some(bm)
        }
    }

    /// The answer of a mate search: the search is over; an aborted search
    /// sends nothing.
    pub fn on_mate_found(&mut self, cm: CheckMate) -> (r: Option<CheckMate>)
        ensures
            *final(self) == (AgentState { busy: false, ..*old(self) }),
            (cm is Abort) ==> r is None,
            !(cm is Abort) ==> r == Some(cm),
    {
        self.busy = false;
        match cm {
            CheckMate::Abort => None,
            _ => Some(cm),
        }
    }

    /// `stop` at time `now`: a stopped ponder makes the next search count
    /// from `now`; a running search is told to stop; the held move may now
    /// be sent, and is sent if it was found.
    pub fn on_stop(&mut self, now: u64) -> (r: Vec<AgentAction>)
        ensures
            final(self).think_start_time == (if old(self).in_ponder { Some(now) } else { old(self).think_start_time }),
            !final(self).in_ponder,
            final(self).allow_immediate_move,
            final(self).pending == OnAcceptMove::Nothing,
            final(self).busy == old(self).busy,
            final(self).quit_ready == old(self).quit_ready,
            r@ == (if old(self).busy { seq![AgentAction::PushUserEvent(UserEvent::Stop)] } else { Seq::empty() })
                + release_actions(old(self).pending),
    {
        if self.in_ponder {
            self.think_start_time = Some(now);
        }
        self.in_ponder = false;
        let mut r: Vec<AgentAction> = Vec::new();
        if self.busy {
            r.push(AgentAction::PushUserEvent(UserEvent::Stop));
        }
        self.allow_immediate_move = true;
        let ghost before = r@;
        match self.pending {
            OnAcceptMove::Accepted(m) => r.push(AgentAction::SendBestMove(m)),
            OnAcceptMove::Nothing => {},
        }
        self.pending = OnAcceptMove::Nothing;
        proof {
            assert(r@ =~= before + release_actions(old(self).pending));
        }
        r
    }

    /// `ponderhit` at time `now`: the search is told the ponder hit; the held
    /// move may now be sent, and is sent if it was found.
    pub fn on_ponder_hit(&mut self, now: u64) -> (r: Vec<AgentAction>)
        ensures
            !final(self).in_ponder,
            final(self).allow_immediate_move,
            final(self).pending == OnAcceptMove::Nothing,
            final(self).busy == old(self).busy,
            final(self).think_start_time == old(self).think_start_time,
            final(self).quit_ready == old(self).quit_ready,
            r@ == seq![AgentAction::PushUserEvent(UserEvent::PonderHit(now))] + release_actions(old(self).pending),
    {
        self.in_ponder = false;
        let mut r: Vec<AgentAction> = Vec::new();
        r.push(AgentAction::PushUserEvent(UserEvent::PonderHit(now)));
        self.allow_immediate_move = true;
        let ghost before = r@;
        match self.pending {
            OnAcceptMove::Accepted(m) => r.push(AgentAction::SendBestMove(m)),
            OnAcceptMove::Nothing => {},
        }
        self.pending = OnAcceptMove::Nothing;
        proof {
            assert(r@ =~= before + release_actions(old(self).pending));
        }
        r
    }

    /// `quit`: a running search is told to quit, and the player quits.
    pub fn on_quit(&self) -> (r: Vec<AgentAction>)
        ensures
            r@ == (if self.busy { seq![AgentAction::PushUserEvent(UserEvent::Quit)] } else { Seq::empty() })
                + seq![AgentAction::Quit],
    {
        let mut r: Vec<AgentAction> = Vec::new();
        if self.busy {
            r.push(AgentAction::PushUserEvent(UserEvent::Quit));
        }
        let ghost before = r@;
        r.push(AgentAction::Quit);
        proof {
            assert(r@ =~= before + seq![AgentAction::Quit]);
        }
        r
    }

    /// `gameover`: a running search is told to stop, and the player is told
    /// how the game ended.
    pub fn on_game_over(&self, s: GameEndState) -> (r: Vec<AgentAction>)
        ensures
            r@ == (if self.busy { seq![AgentAction::PushUserEvent(UserEvent::Stop)] } else { Seq::empty() })
                + seq![AgentAction::GameOver(s)],
    {
        let mut r: Vec<AgentAction> = Vec::new();
        if self.busy {
            r.push(AgentAction::PushUserEvent(UserEvent::Stop));
        }
        let ghost before = r@;
        r.push(AgentAction::GameOver(s));
        proof {
            assert(r@ =~= before + seq![AgentAction::GameOver(s)]);
        }
        r
    }

    /// The player has quit: the loop may end.
    pub fn on_quit_ready(&mut self)
        ensures
            *final(self) == (AgentState { quit_ready: true, ..*old(self) }),
    {
        self.quit_ready = true;
    }
}

/// The answer to `usi`: the engine's name and author, its options in
/// order, and `usiok`.
pub fn usi_commands(id: String, author: String, options: Vec<(String, UsiOptType)>) -> (r: Vec<UsiCommand>)
    ensures
        r@.len() == options@.len() + 2,
        r@[0] == UsiCommand::UsiId(id, author),
        forall|i: int| 0 <= i < options@.len() ==>
            #[trigger] r@[i + 1] == UsiCommand::UsiOption(options@[i].0, options@[i].1),
        r@[options@.len() as int + 1] == UsiCommand::UsiOk,
{
    let mut r: Vec<UsiCommand> = Vec::new();
    r.push(UsiCommand::UsiId(id, author));
    let n = options.len();
    let mut options = options;
    let ghost opts = options@;
    let mut taken: Vec<(String, UsiOptType)> = Vec::new();
    let mut i: usize = 0;
    while i < n
        invariant
            i <= n,
            n == opts.len(),
            options@ == opts.subrange(i as int, n as int),
            r@.len() == i + 1,
            r@[0] == UsiCommand::UsiId(id, author),
            forall|j: int| 0 <= j < i ==> #[trigger] r@[j + 1] == UsiCommand::UsiOption(opts[j].0, opts[j].1),
        decreases n - i,
    {
        let (k, v) = options.remove(0);
        proof {
            assert(opts.subrange(i as int, n as int)[0] == opts[i as int]);
            assert(options@ =~= opts.subrange(i + 1, n as int));
        }
        r.push(UsiCommand::UsiOption(k, v));
        i = i + 1;
    }
    r.push(UsiCommand::UsiOk);
    r
}

/// The board and the hands of the position a game starts from: the usual
/// start with empty hands, or the given position with its hands (empty
/// ones when it names none).
pub fn initial_position(p: &UsiInitialPosition) -> (r: (Banmen, Mochigoma, Mochigoma))
    ensures
        match *p {
            UsiInitialPosition::Startpos => banmen_grid(r.0.0) == start_grid()
                && r.1@ == Seq::new(7, |i: int| 0u32) && r.2@ == Seq::new(7, |i: int| 0u32),
            UsiInitialPosition::Sfen(b, MochigomaCollections::Pair(ms, mg)) => r == (b, ms, mg),
            UsiInitialPosition::Sfen(b, MochigomaCollections::Empty) => r.0 == b
                && r.1@ == Seq::new(7, |i: int| 0u32) && r.2@ == Seq::new(7, |i: int| 0u32),
        },
{
    match p {
        UsiInitialPosition::Startpos => (banmen_start_pos(), Mochigoma::new(), Mochigoma::new()),
        UsiInitialPosition::Sfen(b, MochigomaCollections::Pair(ms, mg)) => (*b, *ms, *mg),
        UsiInitialPosition::Sfen(b, MochigomaCollections::Empty) => (*b, Mochigoma::new(), Mochigoma::new()),
    }
}

} // verus!
