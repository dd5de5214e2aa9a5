use usiagent::shogi::{Banmen, KomaKind, Teban, MochigomaKind, MochigomaCollections, Mochigoma, Move, KomaDstPutPosition};
use usiagent::rule::{Rule, State, LegalMove, LegalMoveTo, banmen_start_pos, banmen_eq};
use usiagent::event::{UsiGoTimeLimit, UsiGoByoyomiOrInc};
use usiagent::position::Position;

fn one_fu_in_hand() -> MochigomaCollections {
    let mut ms = Mochigoma::new();
    ms.insert(MochigomaKind::Fu, 1);
    MochigomaCollections::Pair(ms, Mochigoma::new())
}

fn board_with(row: usize, col: usize, k: KomaKind) -> Banmen {
    let mut kinds = [[KomaKind::Blank; 9]; 9];
    kinds[row][col] = k;
    Banmen(kinds)
}

#[test]
fn next_limit_subtracts_time_consumed() {
    let l = UsiGoTimeLimit::Limit(Some((60000, 50000)), None);
    assert_eq!(l.calc_next_limit(Teban::Sente, 0, 10000), Some(50000));
    assert_eq!(l.calc_next_limit(Teban::Gote, 0, 10000), Some(40000));
    assert_eq!(l.calc_next_limit(Teban::Sente, 0, 70000), Some(0));
    let b = UsiGoTimeLimit::Limit(Some((60000, 50000)), Some(UsiGoByoyomiOrInc::Byoyomi(1000)));
    assert_eq!(b.calc_next_limit(Teban::Sente, 5000, 15000), Some(50000));
    let i = UsiGoTimeLimit::Limit(Some((60000, 50000)), Some(UsiGoByoyomiOrInc::Inc(1000, 2000)));
    // 60000 left plus 51000 before the deadline at 61000.
    assert_eq!(i.calc_next_limit(Teban::Sente, 0, 10000), Some(111000));
    assert_eq!(UsiGoTimeLimit::NoLimit.calc_next_limit(Teban::Sente, 0, 10000), None);
    assert_eq!(UsiGoTimeLimit::Infinite.calc_next_limit(Teban::Sente, 0, 10000), None);
}

#[test]
fn time_limit_overrun_clamps_to_zero() {
    let a = UsiGoTimeLimit::Limit(Some((10000, 20000)), Some(UsiGoByoyomiOrInc::Inc(1000, 2000)));
    assert_eq!(Rule::update_time_limit(&a, Teban::Sente, 3000),
        UsiGoTimeLimit::Limit(Some((8000, 20000)), Some(UsiGoByoyomiOrInc::Inc(1000, 2000))));
    let c = UsiGoTimeLimit::Limit(Some((1000, 0)), Some(UsiGoByoyomiOrInc::Inc(1000, 0)));
    assert_eq!(Rule::update_time_limit(&c, Teban::Sente, 5000),
        UsiGoTimeLimit::Limit(Some((0, 0)), Some(UsiGoByoyomiOrInc::Inc(1000, 0))));
}

#[test]
fn fu_drop_on_a_file_with_an_own_fu_is_invalid() {
    let st = State::new(board_with(4, 4, KomaKind::SFu));
    let mc = one_fu_in_hand();
    let same_file = Move::Put(MochigomaKind::Fu, KomaDstPutPosition(5, 6)).to_applied_move();
    let other_file = Move::Put(MochigomaKind::Fu, KomaDstPutPosition(4, 6)).to_applied_move();
    assert!(!Rule::is_valid_move(&st, Teban::Sente, &mc, same_file));
    assert!(Rule::is_valid_move(&st, Teban::Sente, &mc, other_file));
}

#[test]
fn tokin_does_not_block_fu_drops() {
    let st = State::new(board_with(4, 4, KomaKind::SFuN));
    let mc = one_fu_in_hand();
    let mut mvs: Vec<LegalMove> = Vec::new();
    Rule::legal_moves_from_mochigoma_with_buffer(Teban::Sente, &mc, &st, &mut mvs);
    assert_eq!(mvs.len(), 71);
    for m in &mvs {
        match m {
            LegalMove::Put(p) => assert_eq!(p.kind(), MochigomaKind::Fu),
            LegalMove::To(_) => panic!("a drop generator gave a move on the board"),
        }
    }
    let same_file = Move::Put(MochigomaKind::Fu, KomaDstPutPosition(5, 6)).to_applied_move();
    assert!(Rule::is_valid_move(&st, Teban::Sente, &mc, same_file));
    // An unpromoted fu on the file blocks them.
    let st2 = State::new(board_with(4, 4, KomaKind::SFu));
    let mut mvs2: Vec<LegalMove> = Vec::new();
    Rule::legal_moves_from_mochigoma_with_buffer(Teban::Sente, &mc, &st2, &mut mvs2);
    assert_eq!(mvs2.len(), 64);
}

#[test]
fn position_applies_undoes_and_rewinds() {
    let start = State::new(banmen_start_pos());
    let mc = MochigomaCollections::Pair(Mochigoma::new(), Mochigoma::new());
    let mut p: Position<2> = Position::new(start, mc);
    assert!(p.undo_move().is_err());
    // 7g7f: a sente fu from (col 2, row 6) to (col 2, row 5).
    let m1 = LegalMove::To(LegalMoveTo::new(2 * 9 + 6, 2 * 9 + 5, false, None));
    assert!(p.apply_move(Teban::Sente, m1).is_ok());
    assert_eq!(p.get_state().get_banmen().0[5][2], KomaKind::SFu);
    assert_eq!(p.get_state().get_banmen().0[6][2], KomaKind::Blank);
    let m2 = LegalMove::To(LegalMoveTo::new(6 * 9 + 2, 6 * 9 + 3, false, None));
    assert!(p.apply_move(Teban::Gote, m2).is_ok());
    assert_eq!(p.get_state().get_banmen().0[3][6], KomaKind::GFu);
    let m3 = LegalMove::To(LegalMoveTo::new(1 * 9 + 6, 1 * 9 + 5, false, None));
    assert!(p.apply_move(Teban::Sente, m3).is_err());
    assert!(p.undo_move().is_ok());
    assert_eq!(p.get_state().get_banmen().0[3][6], KomaKind::Blank);
    assert_eq!(p.get_state().get_banmen().0[2][6], KomaKind::GFu);
    assert!(p.apply_move(Teban::Gote, m2).is_ok());
    assert!(p.rewind().is_ok());
    assert!(banmen_eq(p.get_state().get_banmen(), &banmen_start_pos()));
    assert!(p.undo_move().is_err());
    match p.get_mc() {
        MochigomaCollections::Pair(ms, _) => assert_eq!(ms.get(MochigomaKind::Fu), 0),
        MochigomaCollections::Empty => panic!("hands were lost"),
    }
}

use usiagent::see::calc_see;
use usiagent::move_orderer::{MoveOrderer, UnusedQuietSee, DivideFactor, QuietSeeEffect};
use usiagent::shogi::ObtainKind;

fn board_of(pieces: &[(usize, usize, KomaKind)]) -> Banmen {
    let mut kinds = [[KomaKind::Blank; 9]; 9];
    for &(row, col, k) in pieces {
        kinds[row][col] = k;
    }
    Banmen(kinds)
}

#[test]
fn see_of_defended_and_undefended_captures() {
    // Sente fu (col 4, row 4) takes a gote gin (col 4, row 3).
    let m = LegalMove::To(LegalMoveTo::new(4 * 9 + 4, 4 * 9 + 3, false, Some(ObtainKind::Gin)));
    let undefended = State::new(board_of(&[(4, 4, KomaKind::SFu), (3, 4, KomaKind::GGin)]));
    assert_eq!(calc_see(Teban::Sente, &undefended, m), 445);
    // A gote kin behind the gin takes the fu back: 445 - 81.
    let defended = State::new(board_of(&[(4, 4, KomaKind::SFu), (3, 4, KomaKind::GGin), (2, 4, KomaKind::GKin)]));
    assert_eq!(calc_see(Teban::Sente, &defended, m), 364);
    // A quiet move from the start position loses nothing.
    let start = State::new(banmen_start_pos());
    let q = LegalMove::To(LegalMoveTo::new(2 * 9 + 6, 2 * 9 + 5, false, None));
    assert_eq!(calc_see(Teban::Sente, &start, q), 0);
}

#[test]
fn ordering_puts_tt_pv_captures_killers_and_quiets_in_order() {
    let state = State::new(board_of(&[(8, 4, KomaKind::SOu), (0, 0, KomaKind::GOu),
        (4, 4, KomaKind::SFu), (3, 4, KomaKind::GGin), (6, 6, KomaKind::SFu), (6, 7, KomaKind::SFu), (6, 8, KomaKind::SFu)]));
    let mut o = MoveOrderer::new(4);
    let cap = LegalMove::To(LegalMoveTo::new(4 * 9 + 4, 4 * 9 + 3, false, Some(ObtainKind::Gin)));
    let q1 = LegalMove::To(LegalMoveTo::new(6 * 9 + 6, 6 * 9 + 5, false, None));
    let q2 = LegalMove::To(LegalMoveTo::new(7 * 9 + 6, 7 * 9 + 5, false, None));
    let q3 = LegalMove::To(LegalMoveTo::new(8 * 9 + 6, 8 * 9 + 5, false, None));
    assert!(o.update_killer(1, q2).is_ok());
    let r = o.ordering::<UnusedQuietSee>(vec![q1, q2, cap, q3], 1, Teban::Sente, &state, Some(q3), None, None, KomaKind::Blank, &[]).ok().unwrap();
    assert_eq!(r.len(), 4);
    assert_eq!(r[0], (q3, 0));
    assert_eq!(r[1], (cap, 445));
    assert_eq!(r[2], (q2, 0));
    assert_eq!(r[3], (q1, 0));
    assert!(o.ordering::<UnusedQuietSee>(vec![q1], 5, Teban::Sente, &state, None, None, None, KomaKind::Blank, &[]).is_err());
    assert!(o.ordering::<UnusedQuietSee>(vec![q1], 1, Teban::Sente, &state, None, None, None, KomaKind::SKin, &[]).is_err());
    // A quiet move from a square holding no sente piece is refused.
    let no_piece = LegalMove::To(LegalMoveTo::new(5 * 9, 5 * 9 + 1, false, None));
    assert!(o.ordering::<UnusedQuietSee>(vec![no_piece], 1, Teban::Sente, &state, None, None, None, KomaKind::Blank, &[]).is_err());
}

#[test]
fn divide_factor_adds_the_exchange_evaluation() {
    let state = State::new(board_of(&[(4, 4, KomaKind::SFu), (3, 4, KomaKind::GGin)]));
    let cap = LegalMove::To(LegalMoveTo::new(4 * 9 + 4, 4 * 9 + 3, false, Some(ObtainKind::Gin)));
    // (100 * 2 + 445) / 2, rounded toward zero.
    assert_eq!(DivideFactor::<2>::effect(Teban::Sente, &state, cap, 100), 322);
    assert_eq!(DivideFactor::<2>::see(Teban::Sente, &state, cap), 445);
    assert_eq!(UnusedQuietSee::effect(Teban::Sente, &state, cap, 100), 100);
}
