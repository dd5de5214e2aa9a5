use usiagent::selfmatch::{SelfMatchGame, Judgement, PonderAction, TimeoutKind, ponder_action, turn_deadline, may_start_game, move_fits};
use usiagent::hash::KyokumenHash;
use usiagent::command::BestMove;
use usiagent::shogi::{Move, KomaSrcPosition, KomaDstToPosition, KomaKind, Banmen, Teban, Mochigoma, MochigomaCollections};
use usiagent::event::{SelfMatchGameEndState, FoulKind};
use usiagent::rule::{banmen_start_pos, AppliedMove};

fn board_with(pieces: &[(usize, usize, KomaKind)]) -> Banmen {
    let mut kinds = [[KomaKind::Blank; 9]; 9];
    for &(x, y, k) in pieces {
        kinds[y][x] = k;
    }
    Banmen(kinds)
}

fn to(sx: u32, sy: u32, dx: u32, dy: u32) -> Move {
    Move::To(KomaSrcPosition(sx, sy), KomaDstToPosition(dx, dy, false))
}

fn empty_hands() -> MochigomaCollections {
    MochigomaCollections::Pair(Mochigoma::new(), Mochigoma::new())
}

fn start_game(h: &KyokumenHash) -> SelfMatchGame {
    SelfMatchGame::new(h, Teban::Sente, banmen_start_pos(), empty_hands())
}

fn judge(g: &mut SelfMatchGame, h: &KyokumenHash, bm: BestMove) -> Judgement {
    assert!(g.judge_fits(h, &bm));
    g.judge(h, bm, &None, 0)
}

#[test]
fn a_legal_move_hands_the_turn_over() {
    let h = KyokumenHash::new();
    let mut g = start_game(&h);
    let reply = to(3, 3, 3, 4);
    let r = judge(&mut g, &h, BestMove::Move(to(7, 7, 7, 6), Some(reply)));
    assert_eq!(r, Judgement::Continue(Some(AppliedMove::from_move(reply))));
    assert_eq!(g.teban, Teban::Gote);
    assert_eq!(g.moves.len(), 1);
    assert_ne!(g.mhash, start_game(&h).mhash);
}

#[test]
fn an_invalid_move_is_a_foul() {
    let h = KyokumenHash::new();
    let mut g = start_game(&h);
    let r = judge(&mut g, &h, BestMove::Move(to(7, 7, 7, 5), None));
    assert_eq!(r, Judgement::GameEnd(SelfMatchGameEndState::Foul(Teban::Sente, FoulKind::InvalidMove)));
    assert_eq!(g.teban, Teban::Sente);
    assert_eq!(g.moves.len(), 1);
}

#[test]
fn resigning_and_declaring() {
    let h = KyokumenHash::new();
    let mut g = start_game(&h);
    let r = judge(&mut g, &h, BestMove::Resign);
    assert_eq!(r, Judgement::GameEnd(SelfMatchGameEndState::Resign(Teban::Sente)));
    assert_eq!(SelfMatchGameEndState::Resign(Teban::Sente).winner(), Some(Teban::Gote));
    let r = judge(&mut g, &h, BestMove::Win);
    assert_eq!(r, Judgement::GameEnd(SelfMatchGameEndState::NyuGyokuLose(Teban::Sente)));
    assert_eq!(judge(&mut g, &h, BestMove::Abort), Judgement::Abort);
    assert_eq!(g.moves.len(), 0);
}

#[test]
fn taking_the_king_wins() {
    let h = KyokumenHash::new();
    let b = board_with(&[(4, 0, KomaKind::GOu), (4, 1, KomaKind::SKin), (4, 8, KomaKind::SOu)]);
    let mut g = SelfMatchGame::new(&h, Teban::Sente, b, empty_hands());
    let r = judge(&mut g, &h, BestMove::Move(to(5, 2, 5, 1), None));
    assert_eq!(r, Judgement::GameEnd(SelfMatchGameEndState::Win(Teban::Sente)));
    assert_eq!(SelfMatchGameEndState::Win(Teban::Sente).winner(), Some(Teban::Sente));
}

#[test]
fn walking_into_check_is_a_foul() {
    let h = KyokumenHash::new();
    let b = board_with(&[(4, 0, KomaKind::GOu), (3, 0, KomaKind::GHisha), (4, 8, KomaKind::SOu)]);
    let mut g = SelfMatchGame::new(&h, Teban::Sente, b, empty_hands());
    let r = judge(&mut g, &h, BestMove::Move(to(5, 9, 6, 9), None));
    assert_eq!(r, Judgement::GameEnd(SelfMatchGameEndState::Foul(Teban::Sente, FoulKind::Suicide)));
}

#[test]
fn ignoring_a_check_is_a_foul() {
    let h = KyokumenHash::new();
    let b = board_with(&[(0, 0, KomaKind::GOu), (4, 0, KomaKind::GHisha), (4, 8, KomaKind::SOu), (8, 8, KomaKind::SFu)]);
    let mut g = SelfMatchGame::new(&h, Teban::Sente, b, empty_hands());
    let r = judge(&mut g, &h, BestMove::Move(to(1, 9, 1, 8), None));
    assert_eq!(r, Judgement::GameEnd(SelfMatchGameEndState::Foul(Teban::Sente, FoulKind::NotRespondedOute)));
}

#[test]
fn repeating_a_position_four_times_is_a_foul() {
    let h = KyokumenHash::new();
    let mut g = start_game(&h);
    let cycle = [to(5, 9, 5, 8), to(5, 1, 5, 2), to(5, 8, 5, 9), to(5, 2, 5, 1)];
    for i in 0..12 {
        let r = judge(&mut g, &h, BestMove::Move(cycle[i % 4], None));
        assert_eq!(r, Judgement::Continue(None));
    }
    let r = judge(&mut g, &h, BestMove::Move(cycle[0], None));
    assert_eq!(r, Judgement::GameEnd(SelfMatchGameEndState::Foul(Teban::Sente, FoulKind::Sennichite)));
}

#[test]
fn replaying_the_moves_of_a_position() {
    let h = KyokumenHash::new();
    let mut g = start_game(&h);
    let moves = vec![AppliedMove::from_move(to(7, 7, 7, 6)), AppliedMove::from_move(to(3, 3, 3, 4))];
    assert_eq!(g.replay_moves(&h, &moves), 2);
    assert_eq!(g.teban, Teban::Sente);
    assert_eq!(g.moves.len(), 2);
    let r = judge(&mut g, &h, BestMove::Move(to(2, 7, 2, 6), None));
    assert_eq!(r, Judgement::Continue(None));
}

#[test]
fn turn_decisions() {
    let m = AppliedMove::from_move(to(7, 7, 7, 6));
    let n = AppliedMove::from_move(to(2, 7, 2, 6));
    assert_eq!(ponder_action(None, Some(m)), PonderAction::StartThink);
    assert_eq!(ponder_action(Some(m), Some(m)), PonderAction::PonderHit);
    assert_eq!(ponder_action(Some(m), Some(n)), PonderAction::PonderMiss);
    assert_eq!(turn_deadline(Some(100), Some(50)), (TimeoutKind::Uptime, Some(50)));
    assert_eq!(turn_deadline(Some(100), Some(150)), (TimeoutKind::Turn, Some(100)));
    assert_eq!(turn_deadline(None, Some(150)), (TimeoutKind::Uptime, Some(150)));
    assert_eq!(turn_deadline(None, None), (TimeoutKind::Never, None));
    assert!(may_start_game(false, 2, Some(3), 10, Some(20)));
    assert!(!may_start_game(false, 3, Some(3), 10, None));
    assert!(!may_start_game(true, 0, None, 0, None));
    assert!(!may_start_game(false, 0, None, 20, Some(20)));
    assert!(move_fits(&to(9, 1, 1, 9)));
    assert!(!move_fits(&to(10, 1, 1, 9)));
    assert!(!move_fits(&to(1, 0, 1, 9)));
}

#[test]
fn game_records() {
    let words = ["startpos"];
    let m = vec![to(7, 7, 7, 6), to(3, 3, 3, 4)];
    assert_eq!(usiagent::selfmatch::kifu_sfen(&words, "startpos", &m).unwrap(), "startpos moves 7g7f 3c3d");
    assert_eq!(usiagent::selfmatch::kifu_sfen(&words, "startpos", &Vec::new()).unwrap(), "startpos");
    let s = "sfen lnsgkgsnl/1r5b1/ppppppppp/9/9/9/PPPPPPPPP/1B5R1/LNSGKGSNL b - 1";
    let words: Vec<&str> = s.split(" ").collect();
    assert_eq!(usiagent::selfmatch::kifu_sfen(&words, s, &m).unwrap(),
        "sfen lnsgkgsnl/1r5b1/ppppppppp/9/9/9/PPPPPPPPP/1B5R1/LNSGKGSNL b - 1 moves 7g7f 3c3d");
    assert!(matches!(usiagent::selfmatch::kifu_sfen(&["moves"], "moves", &m),
        Err(usiagent::error::SfenStringConvertError::InvalidFormat(ref x)) if x == "moves"));
}
