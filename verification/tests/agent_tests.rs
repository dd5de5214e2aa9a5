use usiagent::agent::{AgentState, AgentAction, usi_commands, initial_position};
use usiagent::command::{BestMove, CheckMate, UsiCommand, UsiOptType};
use usiagent::event::{UsiGo, UsiGoTimeLimit, UsiGoMateTimeLimit, UserEvent, GameEndState, UsiInitialPosition};
use usiagent::shogi::{Move, KomaSrcPosition, KomaDstToPosition, MochigomaCollections, Mochigoma, MochigomaKind};
use usiagent::rule::{banmen_start_pos, banmen_eq};
use usiagent::OnAcceptMove;
use usiagent::string::AddIndent;

fn bm() -> BestMove {
    BestMove::Move(Move::To(KomaSrcPosition(7, 7), KomaDstToPosition(7, 6, false)), None)
}

#[test]
fn a_pondered_move_waits_for_stop() {
    let mut s = AgentState::new();
    let acts = s.on_go(UsiGo::Ponder(UsiGoTimeLimit::NoLimit), 100);
    assert_eq!(acts.len(), 2);
    assert!(matches!(acts[0], AgentAction::ClearUserEvents));
    assert!(matches!(acts[1], AgentAction::StartPonder(UsiGoTimeLimit::NoLimit)));
    assert!(s.busy && s.in_ponder);
    assert_eq!(s.on_best_move(bm(), true), None);
    assert!(!s.busy);
    let acts = s.on_stop(250);
    assert_eq!(acts.len(), 1);
    assert!(matches!(acts[0], AgentAction::SendBestMove(m) if m == bm()));
    assert_eq!(s.think_start_time, Some(250));
    assert!(matches!(s.pending, OnAcceptMove::Nothing));
    // The next search counts from the stop of the ponder.
    let acts = s.on_go(UsiGo::Go(UsiGoTimeLimit::Limit(Some((1000, 1000)), None)), 300);
    assert!(matches!(acts[1], AgentAction::StartThink(250, _, false)));
    assert_eq!(s.think_start_time, None);
}

#[test]
fn a_ponder_hit_before_the_move_lets_it_out_at_once() {
    let mut s = AgentState::new();
    s.on_go(UsiGo::Ponder(UsiGoTimeLimit::NoLimit), 0);
    let acts = s.on_ponder_hit(40);
    assert_eq!(acts.len(), 1);
    assert!(matches!(acts[0], AgentAction::PushUserEvent(UserEvent::PonderHit(40))));
    assert_eq!(s.on_best_move(bm(), true), Some(bm()));
    assert_eq!(s.on_best_move(BestMove::Abort, false), None);
}

#[test]
fn stop_quit_and_gameover_reach_a_running_search() {
    let mut s = AgentState::new();
    let acts = s.on_go(UsiGo::Go(UsiGoTimeLimit::Infinite), 7);
    assert!(matches!(acts[1], AgentAction::StartThink(7, UsiGoTimeLimit::Infinite, true)));
    let acts = s.on_quit();
    assert_eq!(acts.len(), 2);
    assert!(matches!(acts[0], AgentAction::PushUserEvent(UserEvent::Quit)));
    assert!(matches!(acts[1], AgentAction::Quit));
    let acts = s.on_game_over(GameEndState::Win);
    assert!(matches!(acts[0], AgentAction::PushUserEvent(UserEvent::Stop)));
    assert!(matches!(acts[1], AgentAction::GameOver(GameEndState::Win)));
    let acts = s.on_stop(9);
    assert_eq!(acts.len(), 1);
    assert!(matches!(acts[0], AgentAction::PushUserEvent(UserEvent::Stop)));
    s.on_quit_ready();
    assert!(s.quit_ready);
    let acts = s.on_go(UsiGo::Mate(UsiGoMateTimeLimit::Infinite), 0);
    assert!(matches!(acts[1], AgentAction::StartMate(UsiGoMateTimeLimit::Infinite)));
    assert!(s.on_mate_found(CheckMate::Abort).is_none());
    assert!(s.on_mate_found(CheckMate::Nomate).is_some());
    s.on_new_game();
    assert_eq!(s.think_start_time, None);
}

#[test]
fn answer_to_usi() {
    let r = usi_commands("engine".to_string(), "me".to_string(),
        vec![("USI_Hash".to_string(), UsiOptType::Check(Some(true)))]);
    assert_eq!(r.len(), 3);
    assert_eq!(r[0], UsiCommand::UsiId("engine".to_string(), "me".to_string()));
    assert_eq!(r[1], UsiCommand::UsiOption("USI_Hash".to_string(), UsiOptType::Check(Some(true))));
    assert_eq!(r[2], UsiCommand::UsiOk);
}

#[test]
fn positions_a_game_starts_from() {
    let (b, ms, mg) = initial_position(&UsiInitialPosition::Startpos);
    assert!(banmen_eq(&b, &banmen_start_pos()));
    assert!(ms.is_empty() && mg.is_empty());
    let mut hand = Mochigoma::new();
    hand.insert(MochigomaKind::Kin, 2);
    let (_, ms, mg) = initial_position(&UsiInitialPosition::Sfen(banmen_start_pos(),
        MochigomaCollections::Pair(hand, Mochigoma::new())));
    assert_eq!(ms.get(MochigomaKind::Kin), 2);
    assert!(mg.is_empty());
    let (_, ms, _) = initial_position(&UsiInitialPosition::Sfen(banmen_start_pos(), MochigomaCollections::Empty));
    assert!(ms.is_empty());
}

#[test]
fn indenting_text() {
    assert_eq!("a\r\nb\nc".to_string().add_indent(2), "  a\n  b\n  c");
    assert_eq!("".to_string().add_indent(3), "   ");
    assert_eq!("x\ry".to_string().add_indent(0), "x\ry");
}
