use usiagent::stats::{StatsEntry, StatsHistory};
use usiagent::move_orderer::{MoveOrderer, UnusedQuietSee, QuietSeeEffect};
use usiagent::rule::{LegalMove, LegalMovePut, LegalMoveTo, State, banmen_start_pos};
use usiagent::shogi::{KomaKind, MochigomaKind, Teban, ObtainKind};

fn drop_fu(to: u32) -> LegalMove {
    LegalMove::Put(LegalMovePut::new(MochigomaKind::Fu, to))
}

#[test]
fn stats_entry_gravity_values() {
    let e: StatsEntry<7183> = StatsEntry::new(0);
    assert_eq!(e.with_bonus(100).value(), 100);
    let e: StatsEntry<7183> = StatsEntry::new(100);
    assert_eq!(e.with_bonus(100).value(), 99);
    let e: StatsEntry<7183> = StatsEntry::new(-100);
    assert_eq!(e.with_bonus(100).value(), 101);
    let e: StatsEntry<7183> = StatsEntry::new(0);
    assert_eq!(e.with_bonus(10000).value(), 7183);
    let mut e: StatsEntry<8192> = StatsEntry::new(8192);
    e.add_bonus(-8192);
    // -8192 - 8192 * 8192 / 8192
    assert_eq!(e.value(), -16384);
    let v: i32 = StatsEntry::<30000>::new(5).into();
    assert_eq!(v, 5);
}

#[test]
fn stats_history_initial_values() {
    let h = StatsHistory::new(3);
    let m = drop_fu(40);
    assert_eq!(h.lookup_main_history(Teban::Sente, m).ok(), Some(68));
    assert_eq!(h.lookup_low_ply_history(0, Teban::Gote, m).ok(), Some(97));
    assert!(h.lookup_low_ply_history(5, Teban::Gote, m).is_err());
    assert_eq!(h.lookup_pawn_history(Teban::Sente, KomaKind::Blank, m).ok(), Some(-1238));
    let cap = LegalMoveTo::new(10, 11, false, Some(ObtainKind::Fu));
    assert_eq!(h.lookup_capture_history(Teban::Sente, KomaKind::SKin, cap).ok(), Some(-689));
    let quiet = LegalMoveTo::new(10, 11, false, None);
    assert!(h.lookup_capture_history(Teban::Sente, KomaKind::SKin, quiet).is_err());
}

#[test]
fn stats_history_continuation_update() {
    let mut h = StatsHistory::new(3);
    let m = drop_fu(40);
    assert!(h.update_continuation_history(1, Teban::Sente, KomaKind::Blank, m, 1000).is_ok());
    assert!(h.update_continuation_history(4, Teban::Sente, KomaKind::Blank, m, 1000).is_err());
    let v = h.continuation_histories_iter(2, Teban::Sente, KomaKind::Blank, m).ok().unwrap();
    assert_eq!(v.len(), 2);
    // ply 1 first: 1000 - (-529 * 1000 / 30000) = 1000 + 17
    assert_eq!(v[0].value(), 1017);
    assert_eq!(v[1].value(), -529);
    assert!(h.continuation_histories_iter(4, Teban::Sente, KomaKind::Blank, m).is_err());
    h.clear();
    let v = h.continuation_histories_iter(2, Teban::Sente, KomaKind::Blank, m).ok().unwrap();
    assert_eq!(v[0].value(), -529);
}

#[test]
fn stats_history_quiet_update_on_start_position() {
    let state = State::new(banmen_start_pos());
    let mut h = StatsHistory::new(3);
    let m = drop_fu(40);
    assert!(h.update_quiet_histories(1, Teban::Sente, &state, KomaKind::Blank, m, 1024).is_ok());
    // main: 1024 - 68 * 1024 / 7183 = 1024 - 9
    assert_eq!(h.lookup_main_history(Teban::Sente, m).ok(), Some(1015));
    // low ply: 761 - 97 * 761 / 7183 = 761 - 10
    assert_eq!(h.lookup_low_ply_history(1, Teban::Sente, m).ok(), Some(751));
    // pawn: 850 - (-1238 * 850 / 8192) = 850 + 128
    assert_eq!(h.lookup_pawn_history(Teban::Sente, KomaKind::Blank, m).ok(), Some(978));
    assert!(h.update_quiet_histories(4, Teban::Sente, &state, KomaKind::Blank, m, 1024).is_err());
    h.startup();
    assert_eq!(h.lookup_low_ply_history(1, Teban::Sente, m).ok(), Some(97));
}

#[test]
fn stats_history_capture_fail_low() {
    let state = State::new(banmen_start_pos());
    let mut h = StatsHistory::new(3);
    assert!(h.update_capture_histories_when_fail_low(Teban::Sente, &state, drop_fu(40)).is_err());
}

#[test]
fn move_orderer_killer_moves() {
    let mut o = MoveOrderer::new(4);
    let a = drop_fu(40);
    let b = drop_fu(41);
    assert_eq!(o.is_killer(1, a).ok(), Some(false));
    assert!(o.update_killer(1, a).is_ok());
    assert_eq!(o.is_killer(1, a).ok(), Some(true));
    assert!(o.update_killer(1, b).is_ok());
    assert_eq!(o.is_killer(1, a).ok(), Some(true));
    assert_eq!(o.is_killer(1, b).ok(), Some(true));
    assert_eq!(o.is_killer(2, b).ok(), Some(false));
    assert!(o.update_killer(5, a).is_err());
    assert!(o.is_killer(5, a).is_err());
    let cap = LegalMove::To(LegalMoveTo::new(10, 11, false, Some(ObtainKind::Fu)));
    assert!(o.update_killer(1, cap).is_err());
    let nari = LegalMove::To(LegalMoveTo::new(10, 11, true, None));
    assert!(o.update_killer(1, nari).is_err());
    o.clear();
    assert_eq!(o.is_killer(1, b).ok(), Some(false));
}

#[test]
fn move_orderer_counter_moves() {
    let mut o = MoveOrderer::new(4);
    let m = drop_fu(40);
    let prev = LegalMove::To(LegalMoveTo::new(20, 21, false, None));
    assert!(o.update_counter_move(m, Teban::Sente, prev, KomaKind::GKin).is_ok());
    assert_eq!(o.is_counter_move(m, Teban::Sente, prev, KomaKind::GKin).ok(), Some(true));
    assert_eq!(o.is_counter_move(drop_fu(41), Teban::Sente, prev, KomaKind::GKin).ok(), Some(false));
    assert!(o.update_counter_move(m, Teban::Sente, prev, KomaKind::SKin).is_err());
    assert!(o.is_counter_move(m, Teban::Sente, prev, KomaKind::SKin).is_err());
    assert_eq!(o.is_counter_move(m, Teban::Sente, prev, KomaKind::Blank).ok(), Some(false));
}

#[test]
fn move_orderer_history_updates() {
    let state = State::new(banmen_start_pos());
    let mut o = MoveOrderer::new(4);
    let m = drop_fu(40);
    assert_eq!(o.look_up_history(Teban::Sente, &state, m).ok(), Some(0));
    assert!(o.update_improve_history(Teban::Sente, &state, m, 1, 2, &[]).is_ok());
    assert_eq!(o.look_up_history(Teban::Sente, &state, m).ok(), Some(1536));
    assert!(o.update_degrade_history(Teban::Sente, &state, m, 1).is_ok());
    // -512 - 1536 * 512 / 16384 = -512 - 48
    assert_eq!(o.look_up_history(Teban::Sente, &state, m).ok(), Some(-560));
    assert_eq!(o.calc_piece_index(Teban::Gote, &state, m).ok(), Some(14));
    assert_eq!(o.calc_piece_us_index(Teban::Gote, 14).ok(), Some(0));
    assert!(o.calc_piece_us_index(Teban::Sente, 14).is_err());
    assert!(o.calc_piece_us_index(Teban::Sente, 28).is_err());
    // a move of a gote piece on sente's turn is refused
    let gote_move = LegalMove::To(LegalMoveTo::new(0, 1, false, None));
    assert!(o.calc_piece_index(Teban::Sente, &state, gote_move).is_err());
    assert_eq!(UnusedQuietSee::effect(Teban::Sente, &state, m, 17), 17);
    assert_eq!(UnusedQuietSee::see(Teban::Sente, &state, m), 0);
}
