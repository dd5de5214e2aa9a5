use usiagent::TryFrom;
use usiagent::error::{TypeConvertError, ToMoveStringConvertError, DanConvertError, UsiOutputCreateError, SfenStringConvertError};
use usiagent::shogi::{Move, KomaSrcPosition, KomaDstToPosition, KomaDstPutPosition, MochigomaKind, Teban, Banmen, KomaKind,
    MochigomaCollections, Mochigoma};
use usiagent::protocol::{ToSfen, ToUsiCommand, PositionParser, GoParser, UsiOutput, move_to_string, parse_u32, push_signed};
use usiagent::rule::banmen_start_pos;
use usiagent::event::{UsiGo, UsiGoTimeLimit, UsiGoMateTimeLimit, UsiGoByoyomiOrInc, UsiInitialPosition};
use usiagent::command::{BestMove, CheckMate, UsiCommand, UsiInfoSubCommand, UsiScore, UsiScoreMate, UsiOptType};

fn mv(s: &str) -> Result<Move, TypeConvertError> {
    <Move as TryFrom<&str, TypeConvertError>>::try_from(s)
}

fn teban(s: &str) -> Result<Teban, TypeConvertError> {
    <Teban as TryFrom<&str, TypeConvertError>>::try_from(s)
}

fn koma(s: String) -> Result<KomaKind, TypeConvertError> {
    <KomaKind as TryFrom<String, TypeConvertError>>::try_from(s)
}

fn banmen(s: &str) -> Result<Banmen, TypeConvertError> {
    <Banmen as TryFrom<&str, TypeConvertError>>::try_from(s)
}

fn hands(s: &str) -> Result<MochigomaCollections, TypeConvertError> {
    <MochigomaCollections as TryFrom<&str, TypeConvertError>>::try_from(s)
}

fn output(c: &UsiCommand) -> Result<UsiOutput, UsiOutputCreateError> {
    <UsiOutput as TryFrom<&UsiCommand, UsiOutputCreateError>>::try_from(c)
}

const START_SFEN: &str = "lnsgkgsnl/1r5b1/ppppppppp/9/9/9/PPPPPPPPP/1B5R1/LNSGKGSNL";

fn syntax_message(r: Result<Move, TypeConvertError>) -> String {
    match r {
        Err(TypeConvertError::SyntaxError(m)) => m,
        other => panic!("expected a syntax error, got {:?}", other),
    }
}

#[test]
fn move_from_str_reads_moves_and_drops() {
    assert_eq!(mv("7g7f"), Ok(Move::To(KomaSrcPosition(7, 7), KomaDstToPosition(7, 6, false))));
    assert_eq!(mv("8h2b+"), Ok(Move::To(KomaSrcPosition(8, 8), KomaDstToPosition(2, 2, true))));
    assert_eq!(mv("P*5e"), Ok(Move::Put(MochigomaKind::Fu, KomaDstPutPosition(5, 5))));
    assert_eq!(mv("R*1a"), Ok(Move::Put(MochigomaKind::Hisha, KomaDstPutPosition(1, 1))));
    // anything after the promotion mark is ignored
    assert_eq!(mv("2b3c+x"), Ok(Move::To(KomaSrcPosition(2, 2), KomaDstToPosition(3, 3, true))));
}

#[test]
fn move_from_str_reports_each_fault() {
    assert_eq!(syntax_message(mv("7g7")),
        "Invalid SFEN character string (number of characters of move expression is invalid)");
    assert_eq!(syntax_message(mv("P-5e")), "Invalid SFEN string (there no '*' after the name)");
    assert_eq!(syntax_message(mv("7z7f")), "Invalid SFEN character string (The format of the move is illegal)");
    assert_eq!(syntax_message(mv("7g7f=")), "Invalid SFEN character string (The format of the move is illegal)");
    assert_eq!(syntax_message(mv("0g7f")), "Invalid SFEN character string (The format of the move is illegal)");
    match mv("P*5e1") {
        Err(TypeConvertError::LogicError(m)) =>
            assert_eq!(m, "Logic error in the move analysis phase of the SFEN string analysis process."),
        other => panic!("unexpected {:?}", other),
    }
}

#[test]
fn move_text_round_trip() {
    let moves = [
        Move::To(KomaSrcPosition(7, 7), KomaDstToPosition(7, 6, false)),
        Move::To(KomaSrcPosition(8, 8), KomaDstToPosition(2, 2, true)),
        Move::Put(MochigomaKind::Kin, KomaDstPutPosition(5, 9)),
    ];
    for m in moves.iter() {
        let s = move_to_string(m).unwrap();
        assert_eq!(mv(s.as_str()), Ok(*m));
    }
    assert_eq!(move_to_string(&moves[1]).unwrap(), "8h2b+");
    assert_eq!(move_to_string(&moves[2]).unwrap(), "G*5i");
    assert_eq!(move_to_string(&Move::To(KomaSrcPosition(1, 10), KomaDstToPosition(1, 1, false))),
        Err(ToMoveStringConvertError::CharConvert(DanConvertError(10))));
}

#[test]
fn moves_to_sfen_joins_with_spaces() {
    let v = vec![
        Move::To(KomaSrcPosition(7, 7), KomaDstToPosition(7, 6, false)),
        Move::To(KomaSrcPosition(3, 3), KomaDstToPosition(3, 4, false)),
    ];
    assert_eq!(v.to_sfen().unwrap(), "7g7f 3c3d");
    let e: Vec<Move> = Vec::new();
    assert_eq!(e.to_sfen().unwrap(), "");
}

#[test]
fn teban_and_koma_strings() {
    assert_eq!(teban("b"), Ok(Teban::Sente));
    assert_eq!(teban("w"), Ok(Teban::Gote));
    assert!(matches!(teban("x"), Err(TypeConvertError::SyntaxError(_))));
    assert_eq!(Teban::Sente.to_sfen().unwrap(), "b");
    assert_eq!(Teban::Gote.to_sfen().unwrap(), "w");
    assert_eq!(koma(String::from("+p")), Ok(KomaKind::GFuN));
    assert_eq!(koma(String::from("K")), Ok(KomaKind::SOu));
    assert_eq!(koma(String::from("+K")),
        Err(TypeConvertError::SyntaxError(String::from("Invalid SFEN character string (+K)"))));
}

#[test]
fn banmen_sfen_round_trip() {
    let b = banmen(START_SFEN).unwrap();
    assert_eq!(b.0, banmen_start_pos().0);
    assert_eq!(banmen_start_pos().to_sfen().unwrap(), START_SFEN);
    let s = "ln1g1g1nl/1ks2r3/1ppppsbpp/p4pp2/9/2P1P1P2/PP1P1P1PP/1BK1GS1R1/LNSG3NL";
    let b = banmen(s).unwrap();
    assert_eq!(b.to_sfen().unwrap(), s);
    let p = "4k4/9/9/9/4+P4/9/9/9/4K4";
    let b = banmen(p).unwrap();
    assert_eq!(b.0[4][4], KomaKind::SFuN);
    assert_eq!(b.to_sfen().unwrap(), p);
}

#[test]
fn banmen_sfen_errors() {
    assert_eq!(banmen("0/9").err(), Some(TypeConvertError::SyntaxError(String::from(
        "Invalid SFEN character string (0 is specified for the number of blank)"))));
    assert_eq!(banmen("5x3").err(), Some(TypeConvertError::SyntaxError(String::from(
        "Invalid SFEN character string (x)"))));
    assert_eq!(banmen("7P3").err(), Some(TypeConvertError::SyntaxError(String::from(
        "Invalid SFEN character string (pieces outside the range of the board)"))));
    assert_eq!(banmen("9P").err(), Some(TypeConvertError::SyntaxError(String::from(
        "Invalid SFEN string (line separator '/' not found)"))));
    assert_eq!(banmen("4+").err(), Some(TypeConvertError::SyntaxError(String::from(
        "Invalid SFEN character string (illegal expression of piece)"))));
}

#[test]
fn hands_sfen() {
    match hands("2P3pR") {
        Ok(MochigomaCollections::Pair(ms, mg)) => {
            assert_eq!(ms.get(MochigomaKind::Fu), 2);
            assert_eq!(ms.get(MochigomaKind::Hisha), 1);
            assert_eq!(mg.get(MochigomaKind::Fu), 3);
            assert_eq!(mg.get(MochigomaKind::Kin), 0);
        },
        other => panic!("unexpected {:?}", other),
    }
    match hands("-") {
        Ok(MochigomaCollections::Pair(ms, mg)) => assert!(ms.is_empty() && mg.is_empty()),
        other => panic!("unexpected {:?}", other),
    }
    assert!(matches!(hands("1P"), Err(TypeConvertError::SyntaxError(ref m))
        if m == "Invalid SFEN character string (the number of pieces is illegal.)."));
    assert!(matches!(hands("P2"), Err(TypeConvertError::SyntaxError(ref m))
        if m == "Invalid SFEN character string (The type of piece is empty)"));
    assert!(matches!(hands("X"), Err(TypeConvertError::SyntaxError(ref m))
        if m == "Invalid SFEN character string (illegal representation character string of the piece)"));
    assert!(matches!(hands("99999999999P"), Err(TypeConvertError::SyntaxError(ref m))
        if m == "Failed parse string to integer."));

    let mut ms = Mochigoma::new();
    let mut mg = Mochigoma::new();
    ms.insert(MochigomaKind::Hisha, 1);
    ms.insert(MochigomaKind::Fu, 2);
    mg.insert(MochigomaKind::Kaku, 1);
    mg.insert(MochigomaKind::Fu, 3);
    // sente writes a count even for a single piece, gote only above one
    assert_eq!(MochigomaCollections::Pair(ms, mg).to_sfen().unwrap(), "R2Pb3p");
    assert_eq!(MochigomaCollections::Empty.to_sfen().unwrap(), "-");
    assert_eq!(MochigomaCollections::Pair(Mochigoma::new(), Mochigoma::new()).to_sfen().unwrap(), "-");
}

#[test]
fn position_to_sfen() {
    let b = banmen_start_pos();
    let mc = MochigomaCollections::Pair(Mochigoma::new(), Mochigoma::new());
    let moves = vec![Move::To(KomaSrcPosition(7, 7), KomaDstToPosition(7, 6, false))];
    assert_eq!((Teban::Sente, b, mc, moves.clone()).to_sfen().unwrap(), "startpos moves 7g7f");
    assert_eq!((Teban::Sente, b, mc, Vec::new()).to_sfen().unwrap(), "startpos");
    assert_eq!((Teban::Gote, b, mc, Vec::new()).to_sfen().unwrap(), format!("sfen {} w - 1", START_SFEN));
    let bad = vec![Move::To(KomaSrcPosition(7, 10), KomaDstToPosition(7, 6, false))];
    assert_eq!((Teban::Gote, b, mc, bad).to_sfen(),
        Err(SfenStringConvertError::ToMoveString(ToMoveStringConvertError::CharConvert(DanConvertError(10)))));
}

#[test]
fn position_parser_reads_commands() {
    let p = PositionParser::new();
    let r = p.parse(&["startpos", "moves", "7g7f", "3c3d"]).unwrap();
    assert_eq!(r.0, Teban::Sente);
    assert!(matches!(r.1, UsiInitialPosition::Startpos));
    assert_eq!(r.2, 1);
    assert_eq!(r.3.len(), 2);
    let (t, b, mc, n, m) = r.extract();
    assert_eq!(t, Teban::Sente);
    assert_eq!(b.0, banmen_start_pos().0);
    assert!(mc.is_empty());
    assert_eq!(n, 1);
    assert_eq!(m[1], Move::To(KomaSrcPosition(3, 3), KomaDstToPosition(3, 4, false)));

    let r = p.parse(&["sfen", START_SFEN, "w", "2P", "12"]).unwrap();
    assert_eq!(r.0, Teban::Gote);
    assert_eq!(r.2, 12);
    match r.1 {
        UsiInitialPosition::Sfen(b, MochigomaCollections::Pair(ms, _)) => {
            assert_eq!(b.0, banmen_start_pos().0);
            assert_eq!(ms.get(MochigomaKind::Fu), 2);
        },
        other => panic!("unexpected {:?}", other),
    }
    assert!(matches!(p.parse(&[]), Err(TypeConvertError::SyntaxError(ref m))
        if m == "The format of the position command input is invalid."));
    assert!(matches!(p.parse(&["startpos", "moves"]), Err(TypeConvertError::SyntaxError(_))));
    assert!(matches!(p.parse(&["foo"]), Err(TypeConvertError::SyntaxError(ref m))
        if m == "The input form of the position command is invalid. (Insufficient parameters)"));
    assert!(matches!(p.parse(&["sfen", START_SFEN, "b", "-", "1", "move", "7g7f"]), Err(TypeConvertError::SyntaxError(_))));
    assert!(matches!(p.parse(&["sfen", START_SFEN, "b", "-", "x"]), Err(TypeConvertError::SyntaxError(ref m))
        if m == "Failed parse string to integer."));
    assert!(matches!(p.parse(&["startpos", "moves", "7g7"]), Err(TypeConvertError::SyntaxError(_))));
}

#[test]
fn go_parser_reads_limits() {
    let g = GoParser::new();
    assert_eq!(g.parse(&[]), Ok(UsiGo::Go(UsiGoTimeLimit::NoLimit)));
    assert_eq!(g.parse(&["btime", "1000", "wtime", "2000", "byoyomi", "100"]),
        Ok(UsiGo::Go(UsiGoTimeLimit::Limit(Some((1000, 2000)), Some(UsiGoByoyomiOrInc::Byoyomi(100))))));
    assert_eq!(g.parse(&["wtime", "2000", "btime", "1000", "winc", "5", "binc", "7"]),
        Ok(UsiGo::Go(UsiGoTimeLimit::Limit(Some((1000, 2000)), Some(UsiGoByoyomiOrInc::Inc(7, 5))))));
    assert_eq!(g.parse(&["byoyomi", "300"]),
        Ok(UsiGo::Go(UsiGoTimeLimit::Limit(None, Some(UsiGoByoyomiOrInc::Byoyomi(300))))));
    assert_eq!(g.parse(&["ponder"]), Ok(UsiGo::Ponder(UsiGoTimeLimit::NoLimit)));
    assert_eq!(g.parse(&["ponder", "infinite"]), Ok(UsiGo::Ponder(UsiGoTimeLimit::Infinite)));
    assert_eq!(g.parse(&["infinite"]), Ok(UsiGo::Go(UsiGoTimeLimit::Infinite)));
    assert_eq!(g.parse(&["mate", "infinite"]), Ok(UsiGo::Mate(UsiGoMateTimeLimit::Infinite)));
    assert_eq!(g.parse(&["mate", "500"]), Ok(UsiGo::Mate(UsiGoMateTimeLimit::Limit(500))));
    assert_eq!(g.parse(&["mate"]), Ok(UsiGo::Mate(UsiGoMateTimeLimit::NoLimit)));
    assert_eq!(g.parse(&["btime", "1", "wtime", "2", "btime", "3", "wtime", "4"]),
        Err(TypeConvertError::SyntaxError(String::from("The input form of the go command is invalid. (Duplicate parameters)"))));
    assert_eq!(g.parse(&["byoyomi"]),
        Err(TypeConvertError::SyntaxError(String::from("The input form of the go command is invalid. (There is no value for item)"))));
    assert_eq!(g.parse(&["btime", "1", "binc", "2"]),
        Err(TypeConvertError::SyntaxError(String::from("The input form of the go command is invalid. (Insufficient parameters)"))));
    assert_eq!(g.parse(&["nodes", "1"]),
        Err(TypeConvertError::SyntaxError(String::from("The input form of the go command is invalid. (Unknown parameter)"))));
    assert_eq!(g.parse(&["byoyomi", "x"]),
        Err(TypeConvertError::SyntaxError(String::from("Failed parse string to integer."))));
    assert_eq!(g.parse(&["infinite", "1"]),
        Err(TypeConvertError::SyntaxError(String::from("The format of the position command input is invalid."))));
}

#[test]
fn numbers() {
    assert_eq!(parse_u32("+42"), Some(42));
    assert_eq!(parse_u32("4294967295"), Some(4294967295));
    assert_eq!(parse_u32("4294967296"), None);
    assert_eq!(parse_u32(""), None);
    assert_eq!(parse_u32("+"), None);
    assert_eq!(parse_u32("-1"), None);
    let mut s = String::new();
    push_signed(&mut s, i64::MIN);
    assert_eq!(s, "-9223372036854775808");
    let mut s = String::new();
    push_signed(&mut s, 0);
    assert_eq!(s, "0");
}

#[test]
fn best_move_and_checkmate_strings() {
    let m = Move::To(KomaSrcPosition(7, 7), KomaDstToPosition(7, 6, false));
    let p = Move::To(KomaSrcPosition(3, 3), KomaDstToPosition(3, 4, false));
    assert_eq!(BestMove::Move(m, None).to_sfen().unwrap(), "7g7f");
    assert_eq!(BestMove::Move(m, Some(p)).to_sfen().unwrap(), "7g7f ponder 3c3d");
    assert_eq!(BestMove::Resign.to_sfen().unwrap(), "resign");
    assert_eq!(BestMove::Win.to_sfen().unwrap(), "win");
    assert_eq!(BestMove::Abort.to_sfen(), Err(ToMoveStringConvertError::AbortedError));
    assert_eq!(CheckMate::Moves(vec![m, p]).to_sfen().unwrap(), "7g7f 3c3d");
    assert_eq!(CheckMate::Nomate.to_sfen().unwrap(), "nomate");
    assert_eq!(CheckMate::Timeout.to_sfen().unwrap(), "timeout");
    assert_eq!(CheckMate::NotiImplemented.to_sfen().unwrap(), "notimplemented");
    assert!(matches!(CheckMate::Moves(vec![]).to_sfen(), Err(UsiOutputCreateError::InvalidStateError(ref s)) if s == "checkmate"));
    assert!(matches!(CheckMate::Abort.to_sfen(), Err(UsiOutputCreateError::AbortedError)));
}

#[test]
fn info_items_and_lists() {
    assert_eq!(UsiInfoSubCommand::Depth(3).to_usi_command().unwrap(), "depth 3");
    assert_eq!(UsiInfoSubCommand::Score(UsiScore::Cp(-120)).to_usi_command().unwrap(), "score cp -120");
    assert_eq!(UsiInfoSubCommand::Score(UsiScore::MateUpper(5)).to_usi_command().unwrap(), "score mate 5 upperbound");
    assert_eq!(UsiInfoSubCommand::Score(UsiScore::Mate(UsiScoreMate::Minus)).to_usi_command().unwrap(), "score mate -");
    assert_eq!(UsiInfoSubCommand::Str(String::from("hello")).to_usi_command().unwrap(), "string hello");
    assert!(matches!(UsiInfoSubCommand::Pv(vec![]).to_usi_command(), Err(UsiOutputCreateError::InvalidStateError(ref s)) if s == "checkmate"));
    let bad = Move::To(KomaSrcPosition(0, 1), KomaDstToPosition(1, 1, false));
    assert!(matches!(UsiInfoSubCommand::Pv(vec![bad]).to_usi_command(), Err(UsiOutputCreateError::InvalidStateError(ref s)) if s == "pv"));

    let m = Move::To(KomaSrcPosition(7, 7), KomaDstToPosition(7, 6, false));
    let list = vec![
        UsiInfoSubCommand::Pv(vec![m]),
        UsiInfoSubCommand::Depth(10),
        UsiInfoSubCommand::SelDepth(12),
        UsiInfoSubCommand::MultiPv(1),
        UsiInfoSubCommand::Nodes(1000),
    ];
    assert_eq!(list.to_usi_command().unwrap(), "depth 10 seldepth 12 nodes 1000 multipv 1 pv 7g7f");
    let l2 = vec![UsiInfoSubCommand::SelDepth(3)];
    assert!(matches!(l2.to_usi_command(), Err(UsiOutputCreateError::InvalidInfoCommand(ref s))
        if s == "seldepth must be specified immediately after depth"));
    let l3 = vec![UsiInfoSubCommand::Depth(1), UsiInfoSubCommand::Depth(2)];
    assert!(matches!(l3.to_usi_command(), Err(UsiOutputCreateError::InvalidInfoCommand(ref s))
        if s == "The same subcommand is specified more than once"));
    let l4 = vec![UsiInfoSubCommand::MultiPv(2)];
    assert!(matches!(l4.to_usi_command(), Err(UsiOutputCreateError::InvalidInfoCommand(ref s))
        if s == "multipv must be specified along with pv"));
    let l5 = vec![UsiInfoSubCommand::CurMove(bad)];
    assert!(matches!(l5.to_usi_command(), Err(UsiOutputCreateError::InvalidInfoCommand(ref s))
        if s == "parameter of curmove is invalid"));
}

#[test]
fn option_types() {
    assert_eq!(UsiOptType::Check(Some(true)).to_usi_command().unwrap(), "check default true");
    assert_eq!(UsiOptType::Spin(-5, 10, Some(3)).to_usi_command().unwrap(), "spin default 3 min -5 max 10");
    assert_eq!(UsiOptType::Spin(0, 10, None).to_usi_command().unwrap(), "spin min 0 max 10");
    assert_eq!(UsiOptType::Combo(Some(String::from("a")), vec![String::from("a"), String::from("b")]).to_usi_command().unwrap(),
        "combo default a var a var b");
    assert_eq!(UsiOptType::Combo(None, vec![String::from("x")]).to_usi_command().unwrap(), "combo var x");
    assert!(matches!(UsiOptType::Combo(Some(String::from("a")), vec![]).to_usi_command(),
        Err(UsiOutputCreateError::InvalidStateError(ref s)) if s == "There is no selection item of combo"));
    assert_eq!(UsiOptType::String(Some(String::new())).to_usi_command().unwrap(), "string default <empty>");
    assert_eq!(UsiOptType::FileName(Some(String::from("a.txt"))).to_usi_command().unwrap(), "filename default a.txt");
    assert_eq!(UsiOptType::Button.to_usi_command().unwrap(), "button");
}

#[test]
fn commands_to_lines() {
    assert_eq!(UsiCommand::UsiOk.to_usi_command().unwrap(), vec![String::from("usiok")]);
    assert_eq!(UsiCommand::UsiId(String::from("engine"), String::from("me")).to_usi_command().unwrap(),
        vec![String::from("id name engine"), String::from("id author me")]);
    assert_eq!(UsiCommand::UsiOption(String::from("USI_Hash"), UsiOptType::Spin(1, 100, None)).to_usi_command().unwrap(),
        vec![String::from("option name USI_Hash type spin min 1 max 100")]);
    assert!(matches!(UsiCommand::UsiBestMove(BestMove::Abort).to_usi_command(),
        Err(UsiOutputCreateError::ConvertError(ToMoveStringConvertError::AbortedError))));
    match output(&UsiCommand::UsiBestMove(BestMove::Resign)) {
        Ok(UsiOutput::Command(v)) => assert_eq!(v, vec![String::from("bestmove resign")]),
        other => panic!("unexpected {:?}", other),
    }
    match output(&UsiCommand::UsiCheckMate(CheckMate::Nomate)) {
        Ok(UsiOutput::Command(v)) => assert_eq!(v, vec![String::from("checkmate nomate")]),
        other => panic!("unexpected {:?}", other),
    }
}
