use usiagent::shogi::{Banmen, KomaKind, Teban, MochigomaKind, MochigomaCollections, Mochigoma};
use usiagent::rule::{Rule, State, LegalMove, LegalMoveTo, LegalMovePut, AppliedMove, banmen_start_pos, banmen_eq};
use usiagent::hash::KyokumenHash;

fn board_with(pieces: &[(usize, usize, KomaKind)]) -> Banmen {
    let mut kinds = [[KomaKind::Blank; 9]; 9];
    for &(x, y, k) in pieces {
        kinds[y][x] = k;
    }
    Banmen(kinds)
}

fn square(x: u32, y: u32) -> u32 {
    x * 9 + y
}

#[test]
fn start_position_has_thirty_moves() {
    let state = State::new(banmen_start_pos());
    let mc = MochigomaCollections::Pair(Mochigoma::new(), Mochigoma::new());
    let mvs = Rule::legal_moves_all(Teban::Sente, &state, &mc);
    assert_eq!(mvs.len(), 30);
    assert!(banmen_eq(&banmen_start_pos(), state.get_banmen()));
}

#[test]
fn oute_by_moving_and_dropping() {
    let b = board_with(&[(4, 0, KomaKind::GOu), (4, 2, KomaKind::SKin), (4, 8, KomaKind::SOu)]);
    let state = State::new(b);
    let check = LegalMove::To(LegalMoveTo::new(square(4, 2), square(4, 1), false, None));
    assert!(Rule::is_oute_move(&state, Teban::Sente, check));
    let quiet = LegalMove::To(LegalMoveTo::new(square(4, 2), square(5, 2), false, None));
    assert!(!Rule::is_oute_move(&state, Teban::Sente, quiet));

    let b = board_with(&[(4, 0, KomaKind::GOu), (4, 8, KomaKind::SOu)]);
    let state = State::new(b);
    let drop_rook = LegalMove::Put(LegalMovePut::new(MochigomaKind::Hisha, square(4, 4)));
    assert!(Rule::is_oute_move(&state, Teban::Sente, drop_rook));
    let drop_pawn = LegalMove::Put(LegalMovePut::new(MochigomaKind::Fu, square(0, 4)));
    assert!(!Rule::is_oute_move(&state, Teban::Sente, drop_pawn));
}

#[test]
fn control_count_of_a_gold() {
    let b = board_with(&[(8, 0, KomaKind::GOu), (4, 2, KomaKind::SKin), (0, 8, KomaKind::SOu)]);
    let state = State::new(b);
    assert_eq!(Rule::control_count(Teban::Sente, &state, square(4, 1) as i32), 1);
    assert_eq!(Rule::control_count(Teban::Sente, &state, square(2, 5) as i32), 0);
}

#[test]
fn main_hash_follows_a_move() {
    let kh = KyokumenHash::new();
    let b = banmen_start_pos();
    let ms = Mochigoma::new();
    let mg = Mochigoma::new();
    let (h0, _) = kh.calc_initial_hash(&b, &ms, &mg);
    let mc = MochigomaCollections::Pair(ms, mg);
    let m = AppliedMove::To(usiagent::rule::AppliedMoveTo::from_legal(LegalMoveTo::new(square(2, 6), square(2, 5), false, None)));
    let (b2, mc2, o) = Rule::apply_move_to_banmen_and_mochigoma_none_check(&b, Teban::Sente, &mc, m);
    let h1 = kh.calc_main_hash(h0, Teban::Sente, &b, &mc, m, &o);
    let (ms2, mg2) = match mc2 {
        MochigomaCollections::Pair(a, g) => (a, g),
        MochigomaCollections::Empty => (Mochigoma::new(), Mochigoma::new()),
    };
    let (h2, _) = kh.calc_initial_hash(&b2, &ms2, &mg2);
    assert_eq!(h1, h2);
    assert_ne!(h0, h1);
}

#[test]
fn sub_hash_follows_a_capture() {
    let kh = KyokumenHash::new();
    let b = board_with(&[(4, 0, KomaKind::GOu), (4, 3, KomaKind::GFu), (4, 4, KomaKind::SFu), (4, 8, KomaKind::SOu)]);
    let ms = Mochigoma::new();
    let mg = Mochigoma::new();
    let (m0, s0) = kh.calc_initial_hash(&b, &ms, &mg);
    let mc = MochigomaCollections::Pair(ms, mg);
    let m = AppliedMove::To(usiagent::rule::AppliedMoveTo::from_legal(LegalMoveTo::new(square(4, 4), square(4, 3), false, None)));
    let (b2, mc2, o) = Rule::apply_move_to_banmen_and_mochigoma_none_check(&b, Teban::Sente, &mc, m);
    assert_eq!(o, Some(MochigomaKind::Fu));
    let m1 = kh.calc_main_hash(m0, Teban::Sente, &b, &mc, m, &o);
    let s1 = kh.calc_sub_hash(s0, Teban::Sente, &b, &mc, m, &o);
    let (ms2, mg2) = match mc2 {
        MochigomaCollections::Pair(a, g) => (a, g),
        MochigomaCollections::Empty => (Mochigoma::new(), Mochigoma::new()),
    };
    assert_eq!(ms2.get(MochigomaKind::Fu), 1);
    assert_eq!(kh.calc_initial_hash(&b2, &ms2, &mg2), (m1, s1));
}

fn empty_hands() -> MochigomaCollections {
    MochigomaCollections::Pair(Mochigoma::new(), Mochigoma::new())
}

#[test]
fn start_position_scenarios() {
    let state = State::new(banmen_start_pos());
    let mc = MochigomaCollections::Empty;
    assert!(Rule::legal_moves_from_banmen(Teban::Sente, &state).len() > 0);
    assert_eq!(Rule::legal_moves_from_mochigoma(Teban::Sente, &mc, &state).len(), 0);
    assert_eq!(Rule::win_only_moves(Teban::Sente, &state).len(), 0);
    assert_eq!(Rule::oute_only_moves_from_banmen(Teban::Sente, &state, &mc).len(), 0);
    assert_eq!(Rule::oute_only_moves_from_mochigoma(Teban::Sente, &mc, &state).len(), 0);
    assert_eq!(Rule::oute_only_moves_all(Teban::Sente, &state, &mc).len(), 0);
    assert_eq!(Rule::respond_oute_only_moves_all(Teban::Sente, &state, &mc).len(), 30);
    assert!(!Rule::is_nyugyoku_win(&state, Teban::Sente, &mc, &None, 0));
    assert!(!Rule::is_nyugyoku_win(&state, Teban::Gote, &mc, &None, 0));
}

#[test]
fn responded_oute_refuses_a_position_without_check() {
    let state = State::new(banmen_start_pos());
    let m = AppliedMove::To(usiagent::rule::AppliedMoveTo::from_legal(LegalMoveTo::new(square(2, 6), square(2, 5), false, None)));
    let r = Rule::responded_oute(&state, Teban::Sente, &empty_hands(), m);
    match r {
        Err(e) => assert_eq!(e.0, "The argument m is not Move of oute.".to_string()),
        Ok(_) => panic!("expected an error"),
    }
}

#[test]
fn responded_oute_tells_escapes_from_staying() {
    // Gote gives check with a rook on the king's file.
    let b = board_with(&[(4, 0, KomaKind::GHisha), (0, 0, KomaKind::GOu), (4, 8, KomaKind::SOu)]);
    let state = State::new(b);
    let step_aside = AppliedMove::To(usiagent::rule::AppliedMoveTo::from_legal(LegalMoveTo::new(square(4, 8), square(3, 8), false, None)));
    assert_eq!(Rule::responded_oute(&state, Teban::Sente, &empty_hands(), step_aside).unwrap(), true);
    let stay_on_file = AppliedMove::To(usiagent::rule::AppliedMoveTo::from_legal(LegalMoveTo::new(square(4, 8), square(4, 7), false, None)));
    assert_eq!(Rule::responded_oute(&state, Teban::Sente, &empty_hands(), stay_on_file).unwrap(), false);
}

#[test]
fn oute_only_moves_find_the_checks() {
    let b = board_with(&[(4, 0, KomaKind::GOu), (4, 2, KomaKind::SKin), (0, 8, KomaKind::SOu)]);
    let state = State::new(b);
    let mvs = Rule::oute_only_moves_with_point(Teban::Sente, &state, &empty_hands(), 4, 2);
    // The gold gives check from 3,1 / 4,1 / 5,1.
    assert_eq!(mvs.len(), 3);
    for m in mvs.iter() {
        assert!(Rule::is_oute_move(&state, Teban::Sente, *m));
    }
    let all = Rule::oute_only_moves_all(Teban::Sente, &state, &empty_hands());
    assert_eq!(all.len(), 3);
}

#[test]
fn pawn_drop_mate_is_recognised() {
    // After the pawn drop on 0,1 the gote king in the corner cannot answer.
    let b = board_with(&[
        (0, 0, KomaKind::GOu), (1, 0, KomaKind::GKyou), (0, 1, KomaKind::SFu),
        (1, 2, KomaKind::SKin), (8, 8, KomaKind::SOu),
    ]);
    let state = State::new(b);
    let m = AppliedMove::Put(usiagent::rule::AppliedMovePut::from_legal(LegalMovePut::new(MochigomaKind::Fu, square(0, 1))));
    assert!(Rule::is_put_fu_and_mate(&state, Teban::Sente, &empty_hands(), m));

    // Without the gold the king takes the pawn.
    let b = board_with(&[
        (0, 0, KomaKind::GOu), (1, 0, KomaKind::GKyou), (0, 1, KomaKind::SFu), (8, 8, KomaKind::SOu),
    ]);
    let state = State::new(b);
    assert!(!Rule::is_put_fu_and_mate(&state, Teban::Sente, &empty_hands(), m));
}

#[test]
fn nyugyoku_declaration() {
    // Sente king in the opposing camp with ten pieces there.
    let b = board_with(&[
        (4, 0, KomaKind::SOu), (0, 1, KomaKind::SHisha), (1, 1, KomaKind::SKaku), (8, 1, KomaKind::SHisha),
        (2, 2, KomaKind::SKaku), (3, 2, KomaKind::SKin), (5, 2, KomaKind::SKin), (6, 2, KomaKind::SGin),
        (7, 2, KomaKind::SGin), (8, 2, KomaKind::SKei), (0, 2, KomaKind::SKyou), (4, 8, KomaKind::GOu),
    ]);
    let state = State::new(b);
    // On the board: four large pieces and six others, 26 points.
    assert!(!Rule::is_nyugyoku_win(&state, Teban::Sente, &empty_hands(), &None, 0));
    let mut ms = Mochigoma::new();
    ms.insert(MochigomaKind::Fu, 2);
    let mc = MochigomaCollections::Pair(ms, Mochigoma::new());
    assert!(Rule::is_nyugyoku_win(&state, Teban::Sente, &mc, &None, 0));
    // Time left allows the declaration; once the allotted time has run out it is refused.
    assert!(Rule::is_nyugyoku_win(&state, Teban::Sente, &mc, &Some(10), 5));
    assert!(!Rule::is_nyugyoku_win(&state, Teban::Sente, &mc, &Some(10), 10));
    assert!(!Rule::is_nyugyoku_win(&state, Teban::Gote, &mc, &None, 0));
}
