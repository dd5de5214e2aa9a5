//! Reading the commands of the GUI: each line becomes an event for the
//! engine, a note for the log, or the end of the input.
use vstd::prelude::*;
use vstd::string::StringExecFns;
use crate::event::{SystemEvent, SysEventOption, SysEventOptionKind, GameEndState};
use crate::protocol::{PositionParser, GoParser, PositionParseResult, str_eq, parse_i64, i64_text, params_view,
    position_parse, position_is, error_is, go_parse, position_params_fit, hand_fits, sfen_reaches_hands};
use crate::error::{TypeConvertError, str_to_string};

verus! {

/// Reads the lines of the GUI.
pub struct USIInterpreter {}

/// What a line of the GUI asks for.
#[derive(Debug)]
pub enum Interpretation {
    /// An event for the engine.
    Event(SystemEvent),
    /// `quit`: the engine quits and the reading ends.
    Quit,
    /// A line that asks for nothing, with the note for the log.
    Log(String),
    /// The parameters of `position` or `go` are refused.
    Refused(TypeConvertError),
    /// The value of a numeric option is no number (the text given).
    NotNumber(String),
}

/// The kind of the option named `name` among `opts`: the first entry with
/// that name.
pub open spec fn option_find(opts: Seq<(String, SysEventOptionKind)>, name: Seq<char>) -> Option<SysEventOptionKind>
    decreases opts.len(),
{
    if opts.len() == 0 {
        None
    } else if opts[0].0@ == name {
        Some(opts[0].1)
    } else {
        option_find(opts.drop_first(), name)
    }
}

/// The note for a line that is not a command.
pub open spec fn illegal_line(line: Seq<char>) -> Seq<char> {
    "The format of the command is illegal. (input: "@ + line + ")"@
}

/// What `setoption name <id>` (three words `w`) asks for.
pub open spec fn setoption_short(w: Seq<Seq<char>>, opts: Seq<(String, SysEventOptionKind)>, r: Interpretation) -> bool {
    match option_find(opts, w[2]) {
        None => r matches Interpretation::Log(m) && m@ == "Could not get option type."@,
        Some(k) => if w[1] == "name"@ && k == SysEventOptionKind::Exist {
            r matches Interpretation::Event(SystemEvent::SetOption(n, SysEventOption::Exist)) && n@ == w[2]
        } else {
            r matches Interpretation::Log(m) && m@ == "The format of the option command is illegal."@
        },
    }
}

/// What `setoption name <id> value <v> ...` (five words or more `w`) asks for.
pub open spec fn setoption_long(w: Seq<Seq<char>>, opts: Seq<(String, SysEventOptionKind)>, r: Interpretation) -> bool {
    let illegal = r matches Interpretation::Log(m) && m@ == "The format of the option command is illegal."@;
    match option_find(opts, w[2]) {
        None => r matches Interpretation::Log(m) && m@ == "Could not get option type."@,
        Some(k) => if w[1] == "name"@ && w[3] == "value"@ {
            match k {
                SysEventOptionKind::Str => r matches Interpretation::Event(SystemEvent::SetOption(n, SysEventOption::Str(v)))
                    && n@ == w[2] && v@ == w[4],
                SysEventOptionKind::Num => match i64_text(w[4]) {
                    Some(x) => r matches Interpretation::Event(SystemEvent::SetOption(n, SysEventOption::Num(y)))
                        && n@ == w[2] && y == x,
                    None => r matches Interpretation::NotNumber(v) && v@ == w[4],
                },
                SysEventOptionKind::Bool => if w[4] == "true"@ {
                    r matches Interpretation::Event(SystemEvent::SetOption(n, SysEventOption::Bool(true))) && n@ == w[2]
                } else if w[4] == "false"@ {
                    r matches Interpretation::Event(SystemEvent::SetOption(n, SysEventOption::Bool(false))) && n@ == w[2]
                } else {
                    illegal
                },
                SysEventOptionKind::Exist => illegal,
            }
        } else {
            illegal
        },
    }
}

/// What the line `line`, split on spaces into the words `w`, asks for, with
/// the kinds of the engine's options `opts`.
pub open spec fn interpreted(w: Seq<Seq<char>>, line: Seq<char>, opts: Seq<(String, SysEventOptionKind)>, r: Interpretation) -> bool {
    let c = w[0];
    let rest = w.subrange(1, w.len() as int);
    if c == "usi"@ {
        r matches Interpretation::Event(SystemEvent::Usi)
    } else if c == "isready"@ {
        r matches Interpretation::Event(SystemEvent::IsReady)
    } else if c == "setoption"@ && w.len() == 3 {
        setoption_short(w, opts, r)
    } else if c == "setoption"@ && w.len() >= 5 {
        setoption_long(w, opts, r)
    } else if c == "usinewgame"@ {
        r matches Interpretation::Event(SystemEvent::UsiNewGame)
    } else if c == "position"@ && w.len() > 1 {
        match position_parse(rest) {
            Ok(p) => r matches Interpretation::Event(SystemEvent::Position(t, ip, n, m))
                && position_is(PositionParseResult(t, ip, n, m), p),
            Err(d) => r matches Interpretation::Refused(e) && error_is(e, d),
        }
    } else if c == "go"@ {
        match go_parse(rest) {
            Ok(g) => r matches Interpretation::Event(SystemEvent::Go(h)) && h == g,
            Err(m) => r matches Interpretation::Refused(TypeConvertError::SyntaxError(x)) && x@ == m,
        }
    } else if c == "stop"@ {
        r matches Interpretation::Event(SystemEvent::Stop)
    } else if c == "ponderhit"@ {
        r matches Interpretation::Event(SystemEvent::PonderHit)
    } else if c == "quit"@ {
        r matches Interpretation::Quit
    } else if c == "gameover"@ && w.len() == 2 {
        if w[1] == "win"@ {
            r matches Interpretation::Event(SystemEvent::GameOver(GameEndState::Win))
        } else if w[1] == "lose"@ {
            r matches Interpretation::Event(SystemEvent::GameOver(GameEndState::Lose))
        } else if w[1] == "draw"@ {
            r matches Interpretation::Event(SystemEvent::GameOver(GameEndState::Draw))
        } else {
            r matches Interpretation::Log(m) && m@ == "The format of the gameover command is illegal."@
        }
    } else {
        r matches Interpretation::Log(m) && m@ == illegal_line(line)
    }
}

/// What reading a `position` line requires of its parameters: the counts
/// in hand it reads fit in a `u32`.
pub open spec fn line_fits(w: Seq<Seq<char>>) -> bool {
    let rest = w.subrange(1, w.len() as int);
    w[0] == "position"@ && w.len() > 1 && rest[0] == "sfen"@ && sfen_reaches_hands(rest.subrange(1, rest.len() as int))
        ==> hand_fits(rest[3])
}

/// The kind of the option named `name`.
fn find_option(opts: &Vec<(String, SysEventOptionKind)>, name: &str) -> (r: Option<SysEventOptionKind>)
    ensures
        r == option_find(opts@, name@),
{
    let mut i: usize = 0;
    proof {
        assert(opts@.subrange(0, opts@.len() as int) =~= opts@);
    }
    while i < opts.len()
        invariant
            i <= opts.len(),
            option_find(opts@, name@) == option_find(opts@.subrange(i as int, opts@.len() as int), name@),
        decreases opts.len() - i,
    {
        let ghost tail = opts@.subrange(i as int, opts@.len() as int);
        proof {
            assert(tail[0] == opts@[i as int]);
            assert(tail.drop_first() =~= opts@.subrange(i + 1, opts@.len() as int));
        }
        if str_eq(opts[i].0.as_str(), name) {
            return Some(opts[i].1);
        }
        i = i + 1;
    }
    None
}

/// The words of `words` from the second on.
fn rest_of<'a>(words: &[&'a str]) -> (r: Vec<&'a str>)
    requires
        words@.len() > 0,
    ensures
        r@ == words@.subrange(1, words@.len() as int),
{
    let mut r: Vec<&'a str> = Vec::new();
    let mut i: usize = 1;
    while i < words.len()
        invariant
            1 <= i <= words@.len(),
            r@ == words@.subrange(1, i as int),
        decreases words.len() - i,
    {
        r.push(words[i]);
        proof {
            assert(r@ =~= words@.subrange(1, i + 1));
        }
        i = i + 1;
    }
    r
}

impl USIInterpreter {
    /// An interpreter.
    pub fn new() -> (r: USIInterpreter) {
        USIInterpreter {}
    }

    /// Whether the line split into `words` stays within what reading it can
    /// count (`line_fits`).
    pub fn line_fits(&self, words: &[&str]) -> (r: bool)
        requires
            words@.len() > 0,
        ensures
            r == line_fits(params_view(words@)),
    {
        let ghost w = params_view(words@);
        proof {
            assert(w[0] == words@[0]@);
        }
        if words.len() > 1 && str_eq(words[0], "position") {
            let rest = rest_of(words);
            proof {
                assert(params_view(rest@) =~= w.subrange(1, w.len() as int));
            }
            position_params_fit(rest.as_slice())
        } else {
            true
        }
    }

    /// What the line `line`, split on spaces into `words`, asks for, with the
    /// kinds of the engine's options `opts`.
    pub fn interpret(&self, words: &[&str], line: &str, opts: &Vec<(String, SysEventOptionKind)>) -> (r: Interpretation)
        requires
            words@.len() > 0,
            line_fits(params_view(words@)),
        ensures
            interpreted(params_view(words@), line@, opts@, r),
    {
        let ghost w = params_view(words@);
        let n = words.len();
        proof {
            assert(w[0] == words@[0]@);
            if n > 1 { assert(w[1] == words@[1]@); }
            if n > 2 { assert(w[2] == words@[2]@); }
            if n > 3 { assert(w[3] == words@[3]@); }
            if n > 4 { assert(w[4] == words@[4]@); }
        }
        let c = words[0];
        if str_eq(c, "usi") {
            Interpretation::Event(SystemEvent::Usi)
        } else if str_eq(c, "isready") {
            Interpretation::Event(SystemEvent::IsReady)
        } else if str_eq(c, "setoption") && n == 3 {
            match find_option(opts, words[2]) {
                None => Interpretation::Log(str_to_string("Could not get option type.")),
                Some(k) => {
                    if str_eq(words[1], "name") && k == SysEventOptionKind::Exist {
                        Interpretation::Event(SystemEvent::SetOption(str_to_string(words[2]), SysEventOption::Exist))
                    } else {
                        Interpretation::Log(str_to_string("The format of the option command is illegal."))
                    }
                },
            }
        } else if str_eq(c, "setoption") && n >= 5 {
            match find_option(opts, words[2]) {
                None => Interpretation::Log(str_to_string("Could not get option type.")),
                Some(k) => {
                    if str_eq(words[1], "name") && str_eq(words[3], "value") {
                        match k {
                            SysEventOptionKind::Str => Interpretation::Event(SystemEvent::SetOption(
                                str_to_string(words[2]), SysEventOption::Str(str_to_string(words[4])))),
                            SysEventOptionKind::Num => match parse_i64(words[4]) {
                                Some(x) => Interpretation::Event(SystemEvent::SetOption(
                                    str_to_string(words[2]), SysEventOption::Num(x))),
                                None => Interpretation::NotNumber(str_to_string(words[4])),
                            },
                            SysEventOptionKind::Bool => {
                                if str_eq(words[4], "true") {
                                    Interpretation::Event(SystemEvent::SetOption(str_to_string(words[2]), SysEventOption::Bool(true)))
                                } else if str_eq(words[4], "false") {
                                    Interpretation::Event(SystemEvent::SetOption(str_to_string(words[2]), SysEventOption::Bool(false)))
                                } else {
                                    Interpretation::Log(str_to_string("The format of the option command is illegal."))
                                }
                            },
                            SysEventOptionKind::Exist => Interpretation::Log(str_to_string("The format of the option command is illegal.")),
                        }
                    } else {
                        Interpretation::Log(str_to_string("The format of the option command is illegal."))
                    }
                },
            }
        } else if str_eq(c, "usinewgame") {
            Interpretation::Event(SystemEvent::UsiNewGame)
        } else if str_eq(c, "position") && n > 1 {
            let rest = rest_of(words);
            proof {
                assert(params_view(rest@) =~= w.subrange(1, w.len() as int));
            }
            let parser = PositionParser::new();
            match parser.parse(rest.as_slice()) {
                Ok(PositionParseResult(t, p, k, m)) => Interpretation::Event(SystemEvent::Position(t, p, k, m)),
                Err(e) => Interpretation::Refused(e),
            }
        } else if str_eq(c, "go") {
            let rest = rest_of(words);
            proof {
                assert(params_view(rest@) =~= w.subrange(1, w.len() as int));
            }
            let parser = GoParser::new();
            match parser.parse(rest.as_slice()) {
                Ok(g) => Interpretation::Event(SystemEvent::Go(g)),
                Err(e) => Interpretation::Refused(e),
            }
        } else if str_eq(c, "stop") {
            Interpretation::Event(SystemEvent::Stop)
        } else if str_eq(c, "ponderhit") {
            Interpretation::Event(SystemEvent::PonderHit)
        } else if str_eq(c, "quit") {
            Interpretation::Quit
        } else if str_eq(c, "gameover") && n == 2 {
            if str_eq(words[1], "win") {
                Interpretation::Event(SystemEvent::GameOver(GameEndState::Win))
            } else if str_eq(words[1], "lose") {
                Interpretation::Event(SystemEvent::GameOver(GameEndState::Lose))
            } else if str_eq(words[1], "draw") {
                Interpretation::Event(SystemEvent::GameOver(GameEndState::Draw))
            } else {
                Interpretation::Log(str_to_string("The format of the gameover command is illegal."))
            }
        } else {
            let mut m = str_to_string("The format of the command is illegal. (input: ");
            m.append(line);
            m.append(")");
            Interpretation::Log(m)
        }
    }
}

} // verus!
