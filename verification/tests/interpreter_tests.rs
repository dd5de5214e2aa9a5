use usiagent::interpreter::{USIInterpreter, Interpretation};
use usiagent::event::{SystemEvent, SysEventOption, SysEventOptionKind, GameEndState, UsiGo, UsiGoTimeLimit, UsiInitialPosition};
use usiagent::protocol::{parse_i64, hand_text_fits};
use usiagent::shogi::Teban;
use usiagent::error::TypeConvertError;

fn opts() -> Vec<(String, SysEventOptionKind)> {
    vec![
        ("BookFile".to_string(), SysEventOptionKind::Str),
        ("Depth".to_string(), SysEventOptionKind::Num),
        ("Ponder".to_string(), SysEventOptionKind::Bool),
        ("Reset".to_string(), SysEventOptionKind::Exist),
    ]
}

fn read(line: &str) -> Interpretation {
    let i = USIInterpreter::new();
    let words: Vec<&str> = line.split(" ").collect();
    assert!(i.line_fits(&words));
    i.interpret(&words, line, &opts())
}

fn logged(r: Interpretation) -> String {
    match r {
        Interpretation::Log(m) => m,
        other => panic!("expected a note, got {:?}", other),
    }
}

#[test]
fn simple_commands() {
    assert!(matches!(read("usi"), Interpretation::Event(SystemEvent::Usi)));
    assert!(matches!(read("isready"), Interpretation::Event(SystemEvent::IsReady)));
    assert!(matches!(read("usinewgame"), Interpretation::Event(SystemEvent::UsiNewGame)));
    assert!(matches!(read("stop"), Interpretation::Event(SystemEvent::Stop)));
    assert!(matches!(read("ponderhit"), Interpretation::Event(SystemEvent::PonderHit)));
    assert!(matches!(read("quit"), Interpretation::Quit));
    assert!(matches!(read("gameover win"), Interpretation::Event(SystemEvent::GameOver(GameEndState::Win))));
    assert!(matches!(read("gameover draw"), Interpretation::Event(SystemEvent::GameOver(GameEndState::Draw))));
    assert_eq!(logged(read("gameover tie")), "The format of the gameover command is illegal.");
    assert_eq!(logged(read("hello there")), "The format of the command is illegal. (input: hello there)");
    assert_eq!(logged(read("position")), "The format of the command is illegal. (input: position)");
}

#[test]
fn setting_options() {
    match read("setoption name Depth value -12") {
        Interpretation::Event(SystemEvent::SetOption(n, SysEventOption::Num(v))) => {
            assert_eq!(n, "Depth");
            assert_eq!(v, -12);
        },
        other => panic!("{:?}", other),
    }
    match read("setoption name BookFile value book.db") {
        Interpretation::Event(SystemEvent::SetOption(n, SysEventOption::Str(v))) => {
            assert_eq!(n, "BookFile");
            assert_eq!(v, "book.db");
        },
        other => panic!("{:?}", other),
    }
    assert!(matches!(read("setoption name Ponder value true"),
        Interpretation::Event(SystemEvent::SetOption(_, SysEventOption::Bool(true)))));
    assert!(matches!(read("setoption name Reset"),
        Interpretation::Event(SystemEvent::SetOption(_, SysEventOption::Exist))));
    assert!(matches!(read("setoption name Depth value deep"), Interpretation::NotNumber(ref v) if v == "deep"));
    assert_eq!(logged(read("setoption name Ponder value maybe")), "The format of the option command is illegal.");
    assert_eq!(logged(read("setoption name Unknown value 1")), "Could not get option type.");
    assert_eq!(logged(read("setoption name Depth")), "The format of the option command is illegal.");
}

#[test]
fn position_and_go() {
    match read("position startpos moves 7g7f 3c3d") {
        Interpretation::Event(SystemEvent::Position(t, UsiInitialPosition::Startpos, n, m)) => {
            assert_eq!(t, Teban::Sente);
            assert_eq!(n, 1);
            assert_eq!(m.len(), 2);
        },
        other => panic!("{:?}", other),
    }
    assert!(matches!(read("position foo"), Interpretation::Refused(TypeConvertError::SyntaxError(_))));
    assert!(matches!(read("go infinite"), Interpretation::Event(SystemEvent::Go(UsiGo::Go(UsiGoTimeLimit::Infinite)))));
    assert!(matches!(read("go ponder"), Interpretation::Event(SystemEvent::Go(UsiGo::Ponder(UsiGoTimeLimit::NoLimit)))));
}

#[test]
fn reading_numbers_and_hands() {
    assert_eq!(parse_i64("42"), Some(42));
    assert_eq!(parse_i64("+7"), Some(7));
    assert_eq!(parse_i64("-9223372036854775808"), Some(i64::MIN));
    assert_eq!(parse_i64("9223372036854775807"), Some(i64::MAX));
    assert_eq!(parse_i64("9223372036854775808"), None);
    assert_eq!(parse_i64("-"), None);
    assert_eq!(parse_i64(""), None);
    assert_eq!(parse_i64("1a"), None);
    assert!(hand_text_fits("2P3p"));
    assert!(hand_text_fits("-"));
    assert!(!hand_text_fits("4294967295P2P"));
    let i = USIInterpreter::new();
    let line = "position sfen 9/9/9/9/9/9/9/9/9 b 4294967295P2P 1";
    let words: Vec<&str> = line.split(" ").collect();
    assert!(!i.line_fits(&words));
}
