//! A position that moves can be applied to and taken back.
use vstd::prelude::*;
use crate::error::{InvalidStateError, str_to_string};
use crate::rule::{Rule, LegalMove, AppliedMove, applied_of_legal};
use crate::rule::state::{State, square_kind, field_board};
use crate::rule::apply::{move_on_board, capture_fits, kind_after_move, field_after_move, hands_after_move};
use crate::shogi::{MochigomaCollections, Teban};

verus! {

/// `state2` and `mc2` are the board, bitboards and hands after side `t` plays
/// `m` from `state` with hands `mc`.
pub open spec fn applied_to(state: State, mc: MochigomaCollections, t: Teban, m: AppliedMove, state2: State,
    mc2: MochigomaCollections) -> bool {
    &&& forall|s: int| 0 <= s < 81 ==> #[trigger] square_kind(state2.banmen_spec(), s)
        == kind_after_move(state.banmen_spec(), t, m, s)
    &&& forall|f: int| 0 <= f < 22 ==> #[trigger] field_board(state2.part_spec(), f)
        == field_after_move(state.part_spec(), state.banmen_spec(), t, m, f)
    &&& hands_after_move(state.banmen_spec(), t, mc, m, mc2)
}

/// A board and hands to which up to `N` moves can be applied and taken back
/// in turn.
pub struct Position<const N: usize> {
    state: State,
    mc: MochigomaCollections,
    undo_items: Vec<(State, MochigomaCollections)>,
}

impl<const N: usize> Position<N> {
    /// The current board and bitboards.
    pub closed spec fn state_spec(&self) -> State {
        self.state
    }

    /// The current hands.
    pub closed spec fn mc_spec(&self) -> MochigomaCollections {
        self.mc
    }

    /// The boards and hands before each move applied and not taken back, oldest first.
    pub closed spec fn history(&self) -> Seq<(State, MochigomaCollections)> {
        self.undo_items@
    }

    /// How many moves are applied and not taken back.
    pub open spec fn depth(&self) -> int {
        self.history().len() as int
    }

    /// No more than `N` moves are applied.
    pub open spec fn wf(&self) -> bool {
        self.depth() <= N
    }

    /// The board and hands the position started from.
    pub open spec fn initial(&self) -> (State, MochigomaCollections) {
        if self.depth() > 0 {
            self.history()[0]
        } else {
            (self.state_spec(), self.mc_spec())
        }
    }

    /// A position at `state` with hands `mc`, no move applied.
    pub fn new(state: State, mc: MochigomaCollections) -> (r: Position<N>)
        ensures
            r.wf(),
            r.state_spec() == state,
            r.mc_spec() == mc,
            r.depth() == 0,
    {
        Position { state, mc, undo_items: Vec::new() }
    }

    /// The current board and bitboards.
    pub fn get_state(&self) -> (r: &State)
        ensures
            *r == self.state_spec(),
    {
        &self.state
    }

    /// The current hands.
    pub fn get_mc(&self) -> (r: &MochigomaCollections)
        ensures
            *r == self.mc_spec(),
    {
        &self.mc
    }

    /// Applies the move `mv` of side `teban`, keeping what it takes to take it
    /// back; refused, with nothing changed, once `N` moves are applied.
    pub fn apply_move(&mut self, teban: Teban, mv: LegalMove) -> (r: Result<(), InvalidStateError>)
        requires
            old(self).wf(),
            old(self).depth() < N ==> move_on_board(applied_of_legal(mv))
                && capture_fits(old(self).state_spec().banmen_spec(), teban, old(self).mc_spec(), applied_of_legal(mv)),
        ensures
            final(self).wf(),
            r is Err <==> old(self).depth() >= N,
            r is Err ==> *final(self) == *old(self),
            r is Ok ==> applied_to(old(self).state_spec(), old(self).mc_spec(), teban, applied_of_legal(mv),
                final(self).state_spec(), final(self).mc_spec())
                && final(self).history() == old(self).history().push((old(self).state_spec(), old(self).mc_spec())),
    {
        if self.undo_items.len() >= N {
            return Err(InvalidStateError(str_to_string("Undo stack overflow")));
        }
        let m = mv.to_applied_move();
        let (next, nmc, _) = Rule::apply_move_none_check(&self.state, teban, &self.mc, m);
        self.undo_items.push((self.state, self.mc));
        self.state = next;
        self.mc = nmc;
        Ok(())
    }

    /// Takes back the last move applied: the board and hands before it come
    /// back; refused, with nothing changed, when no move is applied.
    pub fn undo_move(&mut self) -> (r: Result<(), InvalidStateError>)
        requires
            old(self).wf(),
        ensures
            final(self).wf(),
            r is Err <==> old(self).depth() == 0,
            r is Err ==> *final(self) == *old(self),
            r is Ok ==> (final(self).state_spec(), final(self).mc_spec()) == old(self).history().last()
                && final(self).history() == old(self).history().drop_last(),
    {
        if self.undo_items.len() == 0 {
            return Err(InvalidStateError(str_to_string("The undo stack is empty.")));
        }
        match self.undo_items.pop() {
            None => Err(InvalidStateError(str_to_string("The undo stack is empty."))),
            Some((s, m)) => {
                self.state = s;
                self.mc = m;
                Ok(())
            },
        }
    }

    /// Takes back every move applied: the board and hands the position
    /// started from come back.
    pub fn rewind(&mut self) -> (r: Result<(), InvalidStateError>)
        requires
            old(self).wf(),
        ensures
            final(self).wf(),
            r is Ok,
            final(self).depth() == 0,
            (final(self).state_spec(), final(self).mc_spec()) == old(self).initial(),
    {
        if self.undo_items.len() > 0 {
            let (s, m) = self.undo_items[0];
            self.state = s;
            self.mc = m;
            self.undo_items = Vec::new();
        }
        Ok(())
    }
}

/// Taking back a move just applied gives back the board, hands and history
/// from before it.
pub proof fn law_undo_after_apply(history: Seq<(State, MochigomaCollections)>, before: (State, MochigomaCollections))
    ensures
        history.push(before).last() == before,
        history.push(before).drop_last() == history,
{
    assert(history.push(before).drop_last() =~= history);
}

} // verus!
