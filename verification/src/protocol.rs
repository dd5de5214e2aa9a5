//! Reading and writing the USI protocol.
use vstd::prelude::*;
use vstd::string::{StrSliceExecFns, StringExecFns};
use vstd::utf8::encode_utf8;
use crate::TryFrom;
use crate::shogi::{nari_of, Move, MochigomaKind, KomaSrcPosition, KomaDstToPosition, KomaDstPutPosition, KomaKind, Teban, Banmen,
    Mochigoma, MochigomaCollections, mochigoma_index, banmen_grid};
use crate::error::{TypeConvertError, ToMoveStringConvertError, DanConvertError, SfenStringConvertError, UsiOutputCreateError};
use crate::command::{BestMove, CheckMate, UsiCommand, UsiInfoSubCommand, UsiInfoSubCommandKind, UsiScore, UsiScoreMate,
    UsiOptType, info_kind, kind_bit, kind_bit_spec, mask_kinds, lemma_mask_insert};
use crate::event::{UsiInitialPosition, UsiGo, UsiGoTimeLimit, UsiGoMateTimeLimit, UsiGoByoyomiOrInc};
use crate::rule::{Validate, valid_move, start_grid, banmen_start_pos, banmen_eq};

verus! {

/// Lines of output for the GUI.
#[derive(Debug)]
pub enum UsiOutput {
    /// The lines of one command.
    Command(Vec<String>),
}

/// Appends `c` to `s` (std's `String::push`).
#[verifier::external_body]
pub(crate) fn string_push(s: &mut String, c: char)
    ensures
        final(s)@ == old(s)@.push(c),
{
    s.push(c);
}

/// The characters of `s`, in order.
pub fn str_chars(s: &str) -> (r: Vec<char>)
    ensures
        r@ == s@,
{
    let n = s.unicode_len();
    let mut v: Vec<char> = Vec::new();
    let mut i: usize = 0;
    while i < n
        invariant
            i <= n,
            n == s@.len(),
            v@ == s@.subrange(0, i as int),
        decreases n - i,
    {
        let c = s.get_char(i);
        v.push(c);
        i = i + 1;
        proof {
            assert(v@ =~= s@.subrange(0, i as int));
        }
    }
    proof {
        assert(v@ =~= s@);
    }
    v
}

/// Whether `a` and `b` hold the same characters.
pub fn str_eq(a: &str, b: &str) -> (r: bool)
    ensures
        r == (a@ == b@),
{
    let x = str_chars(a);
    let y = str_chars(b);
    if x.len() != y.len() {
        return false;
    }
    let mut i: usize = 0;
    while i < x.len()
        invariant
            x@ == a@,
            y@ == b@,
            x.len() == y.len(),
            i <= x.len(),
            forall|j: int| 0 <= j < i ==> x@[j] == y@[j],
        decreases x.len() - i,
    {
        if x[i] != y[i] {
            return false;
        }
        i = i + 1;
    }
    proof {
        assert(a@ =~= b@);
    }
    true
}

/// The column a digit `1`..`9` names.
pub open spec fn file_digit(c: char) -> Option<u32> {
    if 49 <= (c as u32) <= 57 { Some(((c as u32) - 48) as u32) } else { None }
}

/// The row a letter `a`..`i` names (counted from 1).
pub open spec fn rank_letter(c: char) -> Option<u32> {
    if 97 <= (c as u32) <= 105 { Some(((c as u32) - 96) as u32) } else { None }
}

/// The piece in hand a letter of sente names.
pub open spec fn hand_letter(c: char) -> Option<MochigomaKind> {
    if c == 'R' { Some(MochigomaKind::Hisha) }
    else if c == 'B' { Some(MochigomaKind::Kaku) }
    else if c == 'G' { Some(MochigomaKind::Kin) }
    else if c == 'S' { Some(MochigomaKind::Gin) }
    else if c == 'N' { Some(MochigomaKind::Kei) }
    else if c == 'L' { Some(MochigomaKind::Kyou) }
    else if c == 'P' { Some(MochigomaKind::Fu) }
    else { None }
}

fn file_digit_exec(c: char) -> (r: Option<u32>)
    ensures
        r == file_digit(c),
{
    let v = c as u32;
    if 49 <= v && v <= 57 { Some(v - 48) } else { None }
}

fn rank_letter_exec(c: char) -> (r: Option<u32>)
    ensures
        r == rank_letter(c),
{
    let v = c as u32;
    if 97 <= v && v <= 105 { Some(v - 96) } else { None }
}

fn hand_letter_exec(c: char) -> (r: Option<MochigomaKind>)
    ensures
        r == hand_letter(c),
{
    if c == 'R' { Some(MochigomaKind::Hisha) }
    else if c == 'B' { Some(MochigomaKind::Kaku) }
    else if c == 'G' { Some(MochigomaKind::Kin) }
    else if c == 'S' { Some(MochigomaKind::Gin) }
    else if c == 'N' { Some(MochigomaKind::Kei) }
    else if c == 'L' { Some(MochigomaKind::Kyou) }
    else if c == 'P' { Some(MochigomaKind::Fu) }
    else { None }
}

/// Why a string is not a move.
#[derive(Clone, Copy, Debug, PartialEq, Eq, Structural)]
pub enum MoveFault {
    /// Fewer than four bytes.
    Length,
    /// A piece letter not followed by `*`.
    NoStar,
    /// The text ends where the destination should start.
    HandFormat,
    /// A character that does not fit the form of a move.
    MoveFormat,
    /// Characters after a complete drop.
    Trailing,
}

/// The message that goes with `f`.
pub open spec fn move_fault_message(f: MoveFault) -> Seq<char> {
    match f {
        MoveFault::Length => "Invalid SFEN character string (number of characters of move expression is invalid)"@,
        MoveFault::NoStar => "Invalid SFEN string (there no '*' after the name)"@,
        MoveFault::HandFormat => "Invalid SFEN character string (The format of the hand is illegal)"@,
        MoveFault::MoveFormat => "Invalid SFEN character string (The format of the move is illegal)"@,
        MoveFault::Trailing => "Logic error in the move analysis phase of the SFEN string analysis process."@,
    }
}

/// `e` is the error reported for `f`: a logic error for trailing characters, a syntax error otherwise.
pub open spec fn move_fault_is(e: TypeConvertError, f: MoveFault) -> bool {
    match e {
        TypeConvertError::SyntaxError(m) => f != MoveFault::Trailing && m@ == move_fault_message(f),
        TypeConvertError::LogicError(m) => f == MoveFault::Trailing && m@ == move_fault_message(f),
    }
}

fn move_fault_error(f: MoveFault) -> (e: TypeConvertError)
    ensures
        move_fault_is(e, f),
{
    match f {
        MoveFault::Length => TypeConvertError::SyntaxError(String::from_str(
            "Invalid SFEN character string (number of characters of move expression is invalid)")),
        MoveFault::NoStar => TypeConvertError::SyntaxError(String::from_str(
            "Invalid SFEN string (there no '*' after the name)")),
        MoveFault::HandFormat => TypeConvertError::SyntaxError(String::from_str(
            "Invalid SFEN character string (The format of the hand is illegal)")),
        MoveFault::MoveFormat => TypeConvertError::SyntaxError(String::from_str(
            "Invalid SFEN character string (The format of the move is illegal)")),
        MoveFault::Trailing => TypeConvertError::LogicError(String::from_str(
            "Logic error in the move analysis phase of the SFEN string analysis process.")),
    }
}

/// The move a USI move string `cs` names: a drop `P*5e` (piece letter, `*`,
/// column digit, row letter, nothing after) or a move `7g7f`, `8h2b+`
/// (origin, destination, an optional `+`; anything after the `+` is
/// ignored). A string under four bytes is refused first.
pub open spec fn move_parse(cs: Seq<char>) -> Result<Move, MoveFault> {
    if encode_utf8(cs).len() < 4 {
        Err(MoveFault::Length)
    } else if cs.len() == 0 {
        Err(MoveFault::HandFormat)
    } else {
        match hand_letter(cs[0]) {
            Some(k) => if cs.len() < 2 || cs[1] != '*' {
                Err(MoveFault::NoStar)
            } else if cs.len() < 3 {
                Err(MoveFault::HandFormat)
            } else {
                match file_digit(cs[2]) {
                    None => Err(MoveFault::MoveFormat),
                    Some(x) => if cs.len() < 4 {
                        Err(MoveFault::MoveFormat)
                    } else {
                        match rank_letter(cs[3]) {
                            None => Err(MoveFault::MoveFormat),
                            Some(y) => if cs.len() > 4 {
                                Err(MoveFault::Trailing)
                            } else {
                                Ok(Move::Put(k, KomaDstPutPosition(x, y)))
                            },
                        }
                    },
                }
            },
            None => match file_digit(cs[0]) {
                None => Err(MoveFault::MoveFormat),
                Some(sx) => if cs.len() < 2 {
                    Err(MoveFault::MoveFormat)
                } else {
                    match rank_letter(cs[1]) {
                        None => Err(MoveFault::MoveFormat),
                        Some(sy) => if cs.len() < 3 {
                            Err(MoveFault::HandFormat)
                        } else {
                            match file_digit(cs[2]) {
                                None => Err(MoveFault::MoveFormat),
                                Some(dx) => if cs.len() < 4 {
                                    Err(MoveFault::MoveFormat)
                                } else {
                                    match rank_letter(cs[3]) {
                                        None => Err(MoveFault::MoveFormat),
                                        Some(dy) => if cs.len() == 4 {
                                            Ok(Move::To(KomaSrcPosition(sx, sy), KomaDstToPosition(dx, dy, false)))
                                        } else if cs[4] == '+' {
                                            Ok(Move::To(KomaSrcPosition(sx, sy), KomaDstToPosition(dx, dy, true)))
                                        } else {
                                            Err(MoveFault::MoveFormat)
                                        },
                                    }
                                },
                            }
                        },
                    }
                },
            },
        }
    }
}

/// The move `cs` names, or the fault that stops it.
pub fn parse_move_chars(cs: &Vec<char>, byte_len: usize) -> (r: Result<Move, MoveFault>)
    requires
        byte_len == encode_utf8(cs@).len(),
    ensures
        r == move_parse(cs@),
{
    if byte_len < 4 {
        return Err(MoveFault::Length);
    }
    let n = cs.len();
    if n == 0 {
        return Err(MoveFault::HandFormat);
    }
    match hand_letter_exec(cs[0]) {
        Some(k) => {
            if n < 2 || cs[1] != '*' {
                return Err(MoveFault::NoStar);
            }
            if n < 3 {
                return Err(MoveFault::HandFormat);
            }
            let x = match file_digit_exec(cs[2]) {
                Some(x) => x,
                None => { return Err(MoveFault::MoveFormat); },
            };
            if n < 4 {
                return Err(MoveFault::MoveFormat);
            }
            let y = match rank_letter_exec(cs[3]) {
                Some(y) => y,
                None => { return Err(MoveFault::MoveFormat); },
            };
            if n > 4 {
                return Err(MoveFault::Trailing);
            }
            Ok(Move::Put(k, KomaDstPutPosition(x, y)))
        },
        None => {
            let sx = match file_digit_exec(cs[0]) {
                Some(x) => x,
                None => { return Err(MoveFault::MoveFormat); },
            };
            if n < 2 {
                return Err(MoveFault::MoveFormat);
            }
            let sy = match rank_letter_exec(cs[1]) {
                Some(y) => y,
                None => { return Err(MoveFault::MoveFormat); },
            };
            if n < 3 {
                return Err(MoveFault::HandFormat);
            }
            let dx = match file_digit_exec(cs[2]) {
                Some(x) => x,
                None => { return Err(MoveFault::MoveFormat); },
            };
            if n < 4 {
                return Err(MoveFault::MoveFormat);
            }
            let dy = match rank_letter_exec(cs[3]) {
                Some(y) => y,
                None => { return Err(MoveFault::MoveFormat); },
            };
            if n == 4 {
                Ok(Move::To(KomaSrcPosition(sx, sy), KomaDstToPosition(dx, dy, false)))
            } else if cs[4] == '+' {
                Ok(Move::To(KomaSrcPosition(sx, sy), KomaDstToPosition(dx, dy, true)))
            } else {
                Err(MoveFault::MoveFormat)
            }
        },
    }
}

impl<'a> TryFrom<&'a str, TypeConvertError> for Move {
    /// Any string can be read.
    open spec fn try_from_requires(s: &'a str) -> bool {
        true
    }

    /// The move a USI move string names (`7g7f`, `8h2b+`, `P*5e`).
    /// A move string gives the move `move_parse` reads in it, or the error of its fault.
    open spec fn try_from_result(s: &'a str, r: Result<Move, TypeConvertError>) -> bool {
        match r {
            Ok(m) => move_parse(s@) == Ok::<Move, MoveFault>(m),
            Err(e) => move_parse(s@) matches Err(f) && move_fault_is(e, f),
        }
    }

    fn try_from(s: &'a str) -> (r: Result<Move, TypeConvertError>)
    {
        let byte_len = s.as_bytes().len();
        let cs = str_chars(s);
        match parse_move_chars(&cs, byte_len) {
            Ok(m) => Ok(m),
            Err(f) => Err(move_fault_error(f)),
        }
    }
}

/// Writing a value in the SFEN notation.
pub trait ToSfen<E> {
    /// What the value must satisfy to be written.
    spec fn to_sfen_requires(&self) -> bool;

    /// Whether `r` is what writing the value gives.
    spec fn to_sfen_result(&self, r: Result<String, E>) -> bool;

    /// The value in the SFEN notation.
    fn to_sfen(&self) -> (r: Result<String, E>)
        requires
            self.to_sfen_requires(),
        ensures
            self.to_sfen_result(r),
    ;
}

/// Writing a value as (part of) a USI command.
pub trait ToUsiCommand<T, E> {
    /// What the value must satisfy to be written.
    spec fn to_usi_command_requires(&self) -> bool;

    /// Whether `r` is what writing the value gives.
    spec fn to_usi_command_result(&self, r: Result<T, E>) -> bool;

    /// The value as a USI command.
    fn to_usi_command(&self) -> (r: Result<T, E>)
        requires
            self.to_usi_command_requires(),
        ensures
            self.to_usi_command_result(r),
    ;
}

/// The digit character of `d` (below ten).
pub open spec fn digit_char(d: int) -> char {
    if d == 0 { '0' } else if d == 1 { '1' } else if d == 2 { '2' } else if d == 3 { '3' }
    else if d == 4 { '4' } else if d == 5 { '5' } else if d == 6 { '6' } else if d == 7 { '7' }
    else if d == 8 { '8' } else { '9' }
}

/// `n` in decimal, without leading zeros.
pub open spec fn decimal(n: nat) -> Seq<char>
    decreases n,
{
    if n < 10 {
        seq![digit_char(n as int)]
    } else {
        decimal(n / 10).push(digit_char((n % 10) as int))
    }
}

fn digit_char_exec(d: u32) -> (c: char)
    requires
        d < 10,
    ensures
        c == digit_char(d as int),
{
    if d == 0 { '0' } else if d == 1 { '1' } else if d == 2 { '2' } else if d == 3 { '3' }
    else if d == 4 { '4' } else if d == 5 { '5' } else if d == 6 { '6' } else if d == 7 { '7' }
    else if d == 8 { '8' } else { '9' }
}

/// Appends `n` in decimal to `s`.
pub fn push_decimal(s: &mut String, n: u64)
    ensures
        final(s)@ == old(s)@ + decimal(n as nat),
    decreases n,
{
    if n >= 10 {
        push_decimal(s, n / 10);
    }
    let c = digit_char_exec((n % 10) as u32);
    string_push(s, c);
}

/// The letter of row `n` (1 to 9: `a` to `i`).
pub open spec fn dan_char(n: u32) -> char {
    if n == 1 { 'a' } else if n == 2 { 'b' } else if n == 3 { 'c' } else if n == 4 { 'd' }
    else if n == 5 { 'e' } else if n == 6 { 'f' } else if n == 7 { 'g' } else if n == 8 { 'h' } else { 'i' }
}

/// The letter of row `n`: an error above nine.
pub fn dan_char_from(n: u32) -> (r: Result<char, DanConvertError>)
    requires
        n >= 1,
    ensures
        n > 9 ==> r == Err::<char, DanConvertError>(DanConvertError(n)),
        n <= 9 ==> r == Ok::<char, DanConvertError>(dan_char(n)),
{
    if n > 9 {
        Err(DanConvertError(n))
    } else if n == 1 { Ok('a') } else if n == 2 { Ok('b') } else if n == 3 { Ok('c') } else if n == 4 { Ok('d') }
    else if n == 5 { Ok('e') } else if n == 6 { Ok('f') } else if n == 7 { Ok('g') } else if n == 8 { Ok('h') } else { Ok('i') }
}

/// The letter of a piece in hand as sente writes it.
pub open spec fn mochigoma_letter(k: MochigomaKind) -> char {
    match k {
        MochigomaKind::Fu => 'P',
        MochigomaKind::Kyou => 'L',
        MochigomaKind::Kei => 'N',
        MochigomaKind::Gin => 'S',
        MochigomaKind::Kin => 'G',
        MochigomaKind::Kaku => 'B',
        MochigomaKind::Hisha => 'R',
    }
}

fn mochigoma_letter_exec(k: MochigomaKind) -> (c: char)
    ensures
        c == mochigoma_letter(k),
{
    match k {
        MochigomaKind::Fu => 'P',
        MochigomaKind::Kyou => 'L',
        MochigomaKind::Kei => 'N',
        MochigomaKind::Gin => 'S',
        MochigomaKind::Kin => 'G',
        MochigomaKind::Kaku => 'B',
        MochigomaKind::Hisha => 'R',
    }
}

/// Whether `m` can be written without failing on a row of 0 (rows are read
/// left to right, and the first row above nine stops the writing).
pub open spec fn move_writable(m: Move) -> bool {
    match m {
        Move::To(KomaSrcPosition(_, sy), KomaDstToPosition(_, dy, _)) => sy != 0 && (sy > 9 || dy != 0),
        Move::Put(_, KomaDstPutPosition(_, y)) => y != 0,
    }
}

/// The USI string of `m`: columns in decimal, rows as letters, `+` for a
/// promotion, `X*` for a drop; the first row above nine is the error.
pub open spec fn move_text(m: Move) -> Result<Seq<char>, u32> {
    match m {
        Move::To(KomaSrcPosition(sx, sy), KomaDstToPosition(dx, dy, n)) => if sy > 9 {
            Err(sy)
        } else if dy > 9 {
            Err(dy)
        } else {
            Ok(decimal(sx as nat).push(dan_char(sy)) + decimal(dx as nat).push(dan_char(dy))
                + if n { seq!['+'] } else { Seq::<char>::empty() })
        },
        Move::Put(k, KomaDstPutPosition(x, y)) => if y > 9 {
            Err(y)
        } else {
            Ok(seq![mochigoma_letter(k), '*'] + decimal(x as nat).push(dan_char(y)))
        },
    }
}

/// Writes `m` at the end of `s`; on an error `s` holds what was written before it.
fn push_move(s: &mut String, m: &Move) -> (r: Result<(), u32>)
    requires
        move_writable(*m),
    ensures
        match move_text(*m) {
            Ok(t) => r == Ok::<(), u32>(()) && final(s)@ == old(s)@ + t,
            Err(e) => r == Err::<(), u32>(e),
        },
{
    match m {
        Move::To(KomaSrcPosition(sx, sy), KomaDstToPosition(dx, dy, n)) => {
            let a = match dan_char_from(*sy) {
                Ok(c) => c,
                Err(DanConvertError(e)) => { return Err(e); },
            };
            let b = match dan_char_from(*dy) {
                Ok(c) => c,
                Err(DanConvertError(e)) => { return Err(e); },
            };
            let ghost s0 = s@;
            push_decimal(s, *sx as u64);
            string_push(s, a);
            push_decimal(s, *dx as u64);
            string_push(s, b);
            if *n {
                string_push(s, '+');
            }
            proof {
                let t = move_text(*m)->Ok_0;
                assert(s@ =~= s0 + t);
            }
            Ok(())
        },
        Move::Put(k, KomaDstPutPosition(x, y)) => {
            let b = match dan_char_from(*y) {
                Ok(c) => c,
                Err(DanConvertError(e)) => { return Err(e); },
            };
            let ghost s0 = s@;
            string_push(s, mochigoma_letter_exec(*k));
            string_push(s, '*');
            push_decimal(s, *x as u64);
            string_push(s, b);
            proof {
                let t = move_text(*m)->Ok_0;
                assert(s@ =~= s0 + t);
            }
            Ok(())
        },
    }
}

/// The USI string of `m`, or the row that cannot be written.
pub fn move_to_string(m: &Move) -> (r: Result<String, ToMoveStringConvertError>)
    requires
        move_writable(*m),
    ensures
        match move_text(*m) {
            Ok(t) => r matches Ok(s) && s@ == t,
            Err(e) => r == Err::<String, ToMoveStringConvertError>(ToMoveStringConvertError::CharConvert(DanConvertError(e))),
        },
{
    let mut s = String::new();
    match push_move(&mut s, m) {
        Ok(()) => {
            proof {
                assert(s@ =~= move_text(*m)->Ok_0);
            }
            Ok(s)
        },
        Err(e) => Err(ToMoveStringConvertError::CharConvert(DanConvertError(e))),
    }
}

/// The USI strings of `ms` joined by spaces; the first move that cannot be
/// written gives the error.
pub open spec fn moves_text(ms: Seq<Move>) -> Result<Seq<char>, u32>
    decreases ms.len(),
{
    if ms.len() == 0 {
        Ok(Seq::<char>::empty())
    } else {
        match moves_text(ms.drop_last()) {
            Err(e) => Err(e),
            Ok(t) => match move_text(ms.last()) {
                Err(e) => Err(e),
                Ok(u) => Ok(if ms.len() == 1 { u } else { t.push(' ') + u }),
            },
        }
    }
}

/// Writes `ms` joined by spaces at the end of `s`.
fn push_moves(s: &mut String, ms: &Vec<Move>) -> (r: Result<(), u32>)
    requires
        forall|i: int| 0 <= i < ms.len() ==> move_writable(#[trigger] ms@[i]),
    ensures
        match moves_text(ms@) {
            Ok(t) => r == Ok::<(), u32>(()) && final(s)@ == old(s)@ + t,
            Err(e) => r == Err::<(), u32>(e),
        },
{
    let ghost s0 = s@;
    let mut i: usize = 0;
    proof {
        assert(ms@.subrange(0, 0) =~= Seq::<Move>::empty());
    }
    while i < ms.len()
        invariant
            i <= ms.len(),
            forall|j: int| 0 <= j < ms.len() ==> move_writable(#[trigger] ms@[j]),
            moves_text(ms@.subrange(0, i as int)) matches Ok(t) && s@ == s0 + t,
        decreases ms.len() - i,
    {
        let ghost before = s@;
        let ghost pre = ms@.subrange(0, i as int);
        let ghost next = ms@.subrange(0, i as int + 1);
        proof {
            assert(next.drop_last() =~= pre);
            assert(next.last() == ms@[i as int]);
        }
        if i > 0 {
            string_push(s, ' ');
        }
        match push_move(s, &ms[i]) {
            Ok(()) => {},
            Err(e) => {
                proof {
                    lemma_moves_text_err(ms@, i as int + 1);
                }
                return Err(e);
            },
        }
        i = i + 1;
        proof {
            let t = moves_text(pre)->Ok_0;
            assert(s@ =~= s0 + moves_text(next)->Ok_0);
        }
    }
    proof {
        assert(ms@.subrange(0, ms.len() as int) =~= ms@);
    }
    Ok(())
}

/// An error among the first `n` moves is the error of all of them.
proof fn lemma_moves_text_err(ms: Seq<Move>, n: int)
    requires
        0 <= n <= ms.len(),
        moves_text(ms.subrange(0, n)) is Err,
    ensures
        moves_text(ms) == moves_text(ms.subrange(0, n)),
    decreases ms.len() - n,
{
    if n < ms.len() {
        let next = ms.subrange(0, n + 1);
        assert(next.drop_last() =~= ms.subrange(0, n));
        lemma_moves_text_err(ms, n + 1);
    } else {
        assert(ms.subrange(0, n) =~= ms);
    }
}

impl ToSfen<ToMoveStringConvertError> for Vec<Move> {
    /// Every move can be written without failing on a row of 0.
    open spec fn to_sfen_requires(&self) -> bool {
        forall|i: int| 0 <= i < self.len() ==> move_writable(#[trigger] self@[i])
    }

    /// The moves joined by spaces, or the first row that cannot be written.
    open spec fn to_sfen_result(&self, r: Result<String, ToMoveStringConvertError>) -> bool {
        match moves_text(self@) {
            Ok(t) => r matches Ok(s) && s@ == t,
            Err(e) => r == Err::<String, ToMoveStringConvertError>(ToMoveStringConvertError::CharConvert(DanConvertError(e))),
        }
    }

    fn to_sfen(&self) -> (r: Result<String, ToMoveStringConvertError>) {
        let mut s = String::new();
        match push_moves(&mut s, self) {
            Ok(()) => {
                proof {
                    assert(s@ =~= moves_text(self@)->Ok_0);
                }
                Ok(s)
            },
            Err(e) => Err(ToMoveStringConvertError::CharConvert(DanConvertError(e))),
        }
    }
}

/// A column from 1 to 9 is written as one digit, which reads back as the column.
proof fn lemma_file_text(x: u32)
    requires
        1 <= x <= 9,
    ensures
        decimal(x as nat) == seq![digit_char(x as int)],
        file_digit(digit_char(x as int)) == Some(x),
        rank_letter(digit_char(x as int)) is None,
        hand_letter(digit_char(x as int)) is None,
        '\0' <= digit_char(x as int) <= '\u{7f}',
{
}

/// A row from 1 to 9 is written as a letter that reads back as the row.
proof fn lemma_rank_text(y: u32)
    requires
        1 <= y <= 9,
    ensures
        rank_letter(dan_char(y)) == Some(y),
        dan_char(y) != '+',
        '\0' <= dan_char(y) <= '\u{7f}',
{
}

/// Writing a move whose squares lie on the board and reading the text back gives the move.
pub proof fn law_move_text_roundtrip(m: Move)
    requires
        crate::rule::valid_move(m),
    ensures
        move_text(m) matches Ok(t) && move_parse(t) == Ok::<Move, MoveFault>(m),
{
    match m {
        Move::To(KomaSrcPosition(sx, sy), KomaDstToPosition(dx, dy, n)) => {
            lemma_file_text(sx);
            lemma_file_text(dx);
            lemma_rank_text(sy);
            lemma_rank_text(dy);
            let t = move_text(m)->Ok_0;
            assert(t.len() >= 4);
            assert(vstd::utf8::is_ascii_chars(t));
            vstd::utf8::is_ascii_chars_encode_utf8(t);
        },
        Move::Put(k, KomaDstPutPosition(x, y)) => {
            lemma_file_text(x);
            lemma_rank_text(y);
            let t = move_text(m)->Ok_0;
            assert(t.len() == 4);
            assert(vstd::utf8::is_ascii_chars(t));
            vstd::utf8::is_ascii_chars_encode_utf8(t);
        },
    }
}

/// The side a turn string names: `b` for sente, `w` for gote.
pub open spec fn teban_text(cs: Seq<char>) -> Option<Teban> {
    if cs == seq!['b'] { Some(Teban::Sente) } else if cs == seq!['w'] { Some(Teban::Gote) } else { None }
}

impl<'a> TryFrom<&'a str, TypeConvertError> for Teban {
    /// Any string can be read.
    open spec fn try_from_requires(s: &'a str) -> bool {
        true
    }

    /// `b` is sente and `w` gote; anything else is a syntax error.
    open spec fn try_from_result(s: &'a str, r: Result<Teban, TypeConvertError>) -> bool {
        match teban_text(s@) {
            Some(t) => r == Ok::<Teban, TypeConvertError>(t),
            None => r matches Err(TypeConvertError::SyntaxError(m))
                && m@ == "It is an illegal character string as a character string representing a turn."@,
        }
    }

    fn try_from(s: &'a str) -> (r: Result<Teban, TypeConvertError>) {
        let cs = str_chars(s);
        if cs.len() == 1 && cs[0] == 'b' {
            proof { assert(s@ =~= seq!['b']); }
            Ok(Teban::Sente)
        } else if cs.len() == 1 && cs[0] == 'w' {
            proof { assert(s@ =~= seq!['w']); }
            Ok(Teban::Gote)
        } else {
            proof {
                assert(s@ != seq!['b'] && s@ != seq!['w']) by {
                    if s@ == seq!['b'] { assert(cs@[0] == 'b'); }
                    if s@ == seq!['w'] { assert(cs@[0] == 'w'); }
                }
            }
            Err(TypeConvertError::SyntaxError(String::from_str(
                "It is an illegal character string as a character string representing a turn.")))
        }
    }
}

/// The piece a single letter names: upper case for sente, lower case for gote.
pub open spec fn kind_letter(c: char) -> Option<KomaKind> {
    if c == 'K' { Some(KomaKind::SOu) } else if c == 'R' { Some(KomaKind::SHisha) }
    else if c == 'B' { Some(KomaKind::SKaku) } else if c == 'G' { Some(KomaKind::SKin) }
    else if c == 'S' { Some(KomaKind::SGin) } else if c == 'N' { Some(KomaKind::SKei) }
    else if c == 'L' { Some(KomaKind::SKyou) } else if c == 'P' { Some(KomaKind::SFu) }
    else if c == 'k' { Some(KomaKind::GOu) } else if c == 'r' { Some(KomaKind::GHisha) }
    else if c == 'b' { Some(KomaKind::GKaku) } else if c == 'g' { Some(KomaKind::GKin) }
    else if c == 's' { Some(KomaKind::GGin) } else if c == 'n' { Some(KomaKind::GKei) }
    else if c == 'l' { Some(KomaKind::GKyou) } else if c == 'p' { Some(KomaKind::GFu) }
    else { None }
}

/// The promoted piece a letter after `+` names.
pub open spec fn promoted_letter(c: char) -> Option<KomaKind> {
    if c == 'R' { Some(KomaKind::SHishaN) } else if c == 'B' { Some(KomaKind::SKakuN) }
    else if c == 'N' { Some(KomaKind::SKeiN) } else if c == 'S' { Some(KomaKind::SGinN) }
    else if c == 'L' { Some(KomaKind::SKyouN) } else if c == 'P' { Some(KomaKind::SFuN) }
    else if c == 'r' { Some(KomaKind::GHishaN) } else if c == 'b' { Some(KomaKind::GKakuN) }
    else if c == 'n' { Some(KomaKind::GKeiN) } else if c == 's' { Some(KomaKind::GGinN) }
    else if c == 'l' { Some(KomaKind::GKyouN) } else if c == 'p' { Some(KomaKind::GFuN) }
    else { None }
}

/// The piece an SFEN piece string names (`P`, `+p`, ...).
pub open spec fn koma_text(t: Seq<char>) -> Option<KomaKind> {
    if t.len() == 1 {
        kind_letter(t[0])
    } else if t.len() == 2 && t[0] == '+' {
        promoted_letter(t[1])
    } else {
        None
    }
}

fn kind_letter_exec(c: char) -> (r: Option<KomaKind>)
    ensures
        r == kind_letter(c),
{
    if c == 'K' { Some(KomaKind::SOu) } else if c == 'R' { Some(KomaKind::SHisha) }
    else if c == 'B' { Some(KomaKind::SKaku) } else if c == 'G' { Some(KomaKind::SKin) }
    else if c == 'S' { Some(KomaKind::SGin) } else if c == 'N' { Some(KomaKind::SKei) }
    else if c == 'L' { Some(KomaKind::SKyou) } else if c == 'P' { Some(KomaKind::SFu) }
    else if c == 'k' { Some(KomaKind::GOu) } else if c == 'r' { Some(KomaKind::GHisha) }
    else if c == 'b' { Some(KomaKind::GKaku) } else if c == 'g' { Some(KomaKind::GKin) }
    else if c == 's' { Some(KomaKind::GGin) } else if c == 'n' { Some(KomaKind::GKei) }
    else if c == 'l' { Some(KomaKind::GKyou) } else if c == 'p' { Some(KomaKind::GFu) }
    else { None }
}

fn promoted_letter_exec(c: char) -> (r: Option<KomaKind>)
    ensures
        r == promoted_letter(c),
{
    if c == 'R' { Some(KomaKind::SHishaN) } else if c == 'B' { Some(KomaKind::SKakuN) }
    else if c == 'N' { Some(KomaKind::SKeiN) } else if c == 'S' { Some(KomaKind::SGinN) }
    else if c == 'L' { Some(KomaKind::SKyouN) } else if c == 'P' { Some(KomaKind::SFuN) }
    else if c == 'r' { Some(KomaKind::GHishaN) } else if c == 'b' { Some(KomaKind::GKakuN) }
    else if c == 'n' { Some(KomaKind::GKeiN) } else if c == 's' { Some(KomaKind::GGinN) }
    else if c == 'l' { Some(KomaKind::GKyouN) } else if c == 'p' { Some(KomaKind::GFuN) }
    else { None }
}

/// The piece the characters `t` name.
fn koma_text_exec(t: &Vec<char>) -> (r: Option<KomaKind>)
    ensures
        r == koma_text(t@),
{
    if t.len() == 1 {
        kind_letter_exec(t[0])
    } else if t.len() == 2 && t[0] == '+' {
        promoted_letter_exec(t[1])
    } else {
        None
    }
}

/// A promoted SFEN token `+c` names the promotion of the piece the letter `c` names,
/// and the token written for a promoted piece is `+` followed by the letter of the piece
/// it was promoted from. A letter of a piece that cannot promote (gold, king) makes no
/// promoted token.
pub proof fn law_promoted_token(c: char, k: KomaKind)
    requires
        kind_letter(c) == Some(k),
    ensures
        nari_of(k) != k ==> koma_text(seq!['+', c]) == Some(nari_of(k)),
        nari_of(k) != k ==> koma_sfen(nari_of(k)) == seq!['+'] + koma_sfen(k),
        nari_of(k) == k ==> koma_text(seq!['+', c]).is_none(),
        koma_text(seq![c]) == Some(k),
        koma_sfen(k) == seq![c],
{
    assert(seq!['+', c].len() == 2);
    assert(seq!['+', c][0] == '+');
    assert(seq!['+', c][1] == c);
    assert(seq![c].len() == 1);
    assert(seq![c][0] == c);
    if nari_of(k) != k {
        assert(koma_sfen(nari_of(k)) =~= seq!['+'] + koma_sfen(k));
    }
}

/// The message of an unknown piece string `t`.
pub open spec fn bad_piece_message(t: Seq<char>) -> Seq<char> {
    "Invalid SFEN character string ("@ + t + ")"@
}

/// The error for the unknown piece string `t`.
fn bad_piece_error(t: &Vec<char>) -> (e: TypeConvertError)
    ensures
        e matches TypeConvertError::SyntaxError(m) && m@ == bad_piece_message(t@),
{
    let mut m = String::from_str("Invalid SFEN character string (");
    let mut i: usize = 0;
    let ghost m0 = m@;
    while i < t.len()
        invariant
            i <= t.len(),
            m@ == m0 + t@.subrange(0, i as int),
        decreases t.len() - i,
    {
        string_push(&mut m, t[i]);
        i = i + 1;
        proof {
            assert(m@ =~= m0 + t@.subrange(0, i as int));
        }
    }
    m.append(")");
    proof {
        assert(t@.subrange(0, t.len() as int) =~= t@);
    }
    TypeConvertError::SyntaxError(m)
}

impl TryFrom<String, TypeConvertError> for KomaKind {
    /// Any string can be read.
    open spec fn try_from_requires(s: String) -> bool {
        true
    }

    /// An SFEN piece string gives its piece; anything else is a syntax error naming it.
    open spec fn try_from_result(s: String, r: Result<KomaKind, TypeConvertError>) -> bool {
        match koma_text(s@) {
            Some(k) => r == Ok::<KomaKind, TypeConvertError>(k),
            None => r matches Err(TypeConvertError::SyntaxError(m)) && m@ == bad_piece_message(s@),
        }
    }

    fn try_from(s: String) -> (r: Result<KomaKind, TypeConvertError>) {
        let t = str_chars(s.as_str());
        match koma_text_exec(&t) {
            Some(k) => Ok(k),
            None => Err(bad_piece_error(&t)),
        }
    }
}

/// Why a board string is refused.
#[derive(Clone, Copy, Debug, PartialEq, Eq, Structural)]
pub enum BanmenFault {
    /// A piece or a run of blanks beyond the ninth row or column.
    OutOfRange,
    /// The column count went past the board.
    Logic,
    /// A row is full but no `/` follows.
    NoSeparator,
    /// `0` given as a run of blanks.
    ZeroBlank,
    /// A `+` at the end of the string.
    PromotedMissing,
    /// A piece string that names no piece.
    BadPiece,
}

/// An empty board as rows.
pub open spec fn blank_grid() -> Seq<Seq<KomaKind>> {
    Seq::new(9, |y: int| Seq::new(9, |x: int| KomaKind::Blank))
}

/// Reading an SFEN board from character `i` on, at column `x` of row `y`
/// with the rows `g` filled so far: pieces by their letters (`+` before a
/// promoted one), runs of blanks by a digit, rows ended by `/` once nine
/// columns are filled (a `/` before that is passed over). The error carries
/// the piece string where one named no piece.
pub open spec fn banmen_scan(cs: Seq<char>, i: int, x: int, y: int, g: Seq<Seq<KomaKind>>)
    -> Result<Seq<Seq<KomaKind>>, (BanmenFault, Seq<char>)>
    decreases cs.len() - i,
{
    if i < 0 || i >= cs.len() {
        Ok(g)
    } else {
        let c = cs[i];
        if y >= 9 {
            Err((BanmenFault::OutOfRange, Seq::<char>::empty()))
        } else if x > 9 {
            Err((BanmenFault::Logic, Seq::<char>::empty()))
        } else if c == '/' {
            if x == 9 { banmen_scan(cs, i + 1, 0, y + 1, g) } else { banmen_scan(cs, i + 1, x, y, g) }
        } else if x == 9 {
            Err((BanmenFault::NoSeparator, Seq::<char>::empty()))
        } else {
            match file_digit(c) {
                Some(d) => if x + d > 9 {
                    Err((BanmenFault::OutOfRange, Seq::<char>::empty()))
                } else {
                    banmen_scan(cs, i + 1, x + d, y, g)
                },
                None => if c == '0' {
                    Err((BanmenFault::ZeroBlank, Seq::<char>::empty()))
                } else if c == '+' {
                    if i + 1 >= cs.len() {
                        Err((BanmenFault::PromotedMissing, Seq::<char>::empty()))
                    } else {
                        let t = seq!['+', cs[i + 1]];
                        match koma_text(t) {
                            Some(k) => banmen_scan(cs, i + 2, x + 1, y, g.update(y, g[y].update(x, k))),
                            None => Err((BanmenFault::BadPiece, t)),
                        }
                    }
                } else {
                    let t = seq![c];
                    match koma_text(t) {
                        Some(k) => banmen_scan(cs, i + 1, x + 1, y, g.update(y, g[y].update(x, k))),
                        None => Err((BanmenFault::BadPiece, t)),
                    }
                },
            }
        }
    }
}

/// The message that goes with a board fault (the piece string for an unknown piece).
pub open spec fn banmen_fault_message(f: BanmenFault, t: Seq<char>) -> Seq<char> {
    match f {
        BanmenFault::OutOfRange => "Invalid SFEN character string (pieces outside the range of the board)"@,
        BanmenFault::Logic => "Logic error of SFEN character string parsing process."@,
        BanmenFault::NoSeparator => "Invalid SFEN string (line separator '/' not found)"@,
        BanmenFault::ZeroBlank => "Invalid SFEN character string (0 is specified for the number of blank)"@,
        BanmenFault::PromotedMissing => "Invalid SFEN character string (illegal expression of piece)"@,
        BanmenFault::BadPiece => bad_piece_message(t),
    }
}

/// `e` is the error reported for the board fault `f`: a logic error for `Logic`, a syntax error otherwise.
pub open spec fn banmen_fault_is(e: TypeConvertError, f: BanmenFault, t: Seq<char>) -> bool {
    match e {
        TypeConvertError::SyntaxError(m) => f != BanmenFault::Logic && m@ == banmen_fault_message(f, t),
        TypeConvertError::LogicError(m) => f == BanmenFault::Logic && m@ == banmen_fault_message(f, t),
    }
}

fn banmen_fault_error(f: BanmenFault) -> (e: TypeConvertError)
    requires
        f != BanmenFault::BadPiece,
    ensures
        banmen_fault_is(e, f, Seq::<char>::empty()),
{
    match f {
        BanmenFault::OutOfRange => TypeConvertError::SyntaxError(String::from_str(
            "Invalid SFEN character string (pieces outside the range of the board)")),
        BanmenFault::Logic => TypeConvertError::LogicError(String::from_str(
            "Logic error of SFEN character string parsing process.")),
        BanmenFault::NoSeparator => TypeConvertError::SyntaxError(String::from_str(
            "Invalid SFEN string (line separator '/' not found)")),
        BanmenFault::ZeroBlank => TypeConvertError::SyntaxError(String::from_str(
            "Invalid SFEN character string (0 is specified for the number of blank)")),
        _ => TypeConvertError::SyntaxError(String::from_str(
            "Invalid SFEN character string (illegal expression of piece)")),
    }
}

/// Puts `k` at column `x`, row `y` of `a`.
fn grid_set(a: &mut [[KomaKind; 9]; 9], x: usize, y: usize, k: KomaKind)
    requires
        x < 9,
        y < 9,
    ensures
        banmen_grid(*final(a)) == banmen_grid(*old(a)).update(y as int, banmen_grid(*old(a))[y as int].update(x as int, k)),
{
    let mut row = a[y];
    row[x] = k;
    a[y] = row;
    proof {
        assert(banmen_grid(*a) =~= banmen_grid(*old(a)).update(y as int, banmen_grid(*old(a))[y as int].update(x as int, k)));
    }
}

impl<'a> TryFrom<&'a str, TypeConvertError> for Banmen {
    /// Any string can be read.
    open spec fn try_from_requires(s: &'a str) -> bool {
        true
    }

    /// An SFEN board gives the board `banmen_scan` reads from an empty one; a fault gives its error.
    open spec fn try_from_result(s: &'a str, r: Result<Banmen, TypeConvertError>) -> bool {
        match banmen_scan(s@, 0, 0, 0, blank_grid()) {
            Ok(g) => r matches Ok(b) && banmen_grid(b.0) == g,
            Err((f, t)) => r matches Err(e) && banmen_fault_is(e, f, t),
        }
    }

    fn try_from(s: &'a str) -> (r: Result<Banmen, TypeConvertError>) {
        let cs = str_chars(s);
        let b = KomaKind::Blank;
        let row: [KomaKind; 9] = [b, b, b, b, b, b, b, b, b];
        let mut a: [[KomaKind; 9]; 9] = [row, row, row, row, row, row, row, row, row];
        let mut x: u32 = 0;
        let mut y: u32 = 0;
        let mut i: usize = 0;
        let ghost whole = banmen_scan(s@, 0, 0, 0, blank_grid());
        proof {
            assert(row@ =~= Seq::new(9, |x: int| KomaKind::Blank));
            assert forall|j: int| 0 <= j < 9 implies a@[j] == row by {}
            assert(banmen_grid(a) =~= blank_grid());
        }
        while i < cs.len()
            invariant
                cs@ == s@,
                i <= cs.len(),
                x <= 9,
                whole == banmen_scan(s@, 0, 0, 0, blank_grid()),
                banmen_scan(s@, i as int, x as int, y as int, banmen_grid(a)) == whole,
            decreases cs.len() - i,
        {
            let c = cs[i];
            if y >= 9 {
                return Err(banmen_fault_error(BanmenFault::OutOfRange));
            }
            if c == '/' {
                if x == 9 {
                    y = y + 1;
                    x = 0;
                }
                i = i + 1;
            } else if x == 9 {
                return Err(banmen_fault_error(BanmenFault::NoSeparator));
            } else {
                match file_digit_exec(c) {
                    Some(d) => {
                        if x + d > 9 {
                            return Err(banmen_fault_error(BanmenFault::OutOfRange));
                        }
                        x = x + d;
                        i = i + 1;
                    },
                    None => {
                        if c == '0' {
                            return Err(banmen_fault_error(BanmenFault::ZeroBlank));
                        } else if c == '+' {
                            if i + 1 >= cs.len() {
                                return Err(banmen_fault_error(BanmenFault::PromotedMissing));
                            }
                            let t = vec!['+', cs[i + 1]];
                            proof {
                                assert(t@ =~= seq!['+', s@[i as int + 1]]);
                            }
                            match koma_text_exec(&t) {
                                Some(k) => {
                                    grid_set(&mut a, x as usize, y as usize, k);
                                    x = x + 1;
                                    i = i + 2;
                                },
                                None => {
                                    return Err(bad_piece_error(&t));
                                },
                            }
                        } else {
                            let t = vec![c];
                            proof {
                                assert(t@ =~= seq![c]);
                            }
                            match koma_text_exec(&t) {
                                Some(k) => {
                                    grid_set(&mut a, x as usize, y as usize, k);
                                    x = x + 1;
                                    i = i + 1;
                                },
                                None => {
                                    return Err(bad_piece_error(&t));
                                },
                            }
                        }
                    },
                }
            }
        }
        Ok(Banmen(a))
    }
}

/// The value of a decimal digit.
pub open spec fn digit_value(c: char) -> Option<int> {
    if 48 <= (c as u32) <= 57 { Some((c as u32) - 48) } else { None }
}

fn digit_value_exec(c: char) -> (r: Option<u32>)
    ensures
        r matches Some(v) ==> digit_value(c) == Some(v as int),
        r is None ==> digit_value(c) is None,
{
    let v = c as u32;
    if 48 <= v && v <= 57 { Some(v - 48) } else { None }
}

/// The end of the run of digits starting at `i`.
pub open spec fn digits_end(cs: Seq<char>, i: int) -> int
    decreases cs.len() - i,
{
    if 0 <= i < cs.len() && digit_value(cs[i]) is Some { digits_end(cs, i + 1) } else { i }
}

/// The decimal value of the digits `cs[i..j]`.
pub open spec fn digits_value(cs: Seq<char>, i: int, j: int) -> int
    decreases j - i,
{
    if j <= i { 0 } else { digits_value(cs, i, j - 1) * 10 + digit_value(cs[j - 1])->Some_0 }
}

proof fn lemma_digits_value_grows(cs: Seq<char>, i: int, j: int)
    requires
        i <= j,
        forall|k: int| i <= k < j ==> #[trigger] digit_value(cs[k]) is Some,
    ensures
        digits_value(cs, i, j) >= 0,
    decreases j - i,
{
    if j > i {
        lemma_digits_value_grows(cs, i, j - 1);
    }
}

proof fn lemma_digits_end(cs: Seq<char>, i: int)
    requires
        0 <= i <= cs.len(),
    ensures
        i <= digits_end(cs, i) <= cs.len(),
        forall|k: int| i <= k < digits_end(cs, i) ==> #[trigger] digit_value(cs[k]) is Some,
        digits_end(cs, i) < cs.len() ==> digit_value(cs[digits_end(cs, i)]) is None,
    decreases cs.len() - i,
{
    if i < cs.len() && digit_value(cs[i]) is Some {
        lemma_digits_end(cs, i + 1);
    }
}

/// Reads the digits of `cs` from `i`: where they end, and their value, or
/// `None` when it exceeds `u32::MAX`.
fn scan_digits(cs: &Vec<char>, i: usize) -> (r: (usize, Option<u32>))
    requires
        i <= cs.len(),
    ensures
        r.0 == digits_end(cs@, i as int),
        r.1 matches Some(v) ==> v == digits_value(cs@, i as int, r.0 as int),
        r.1 is None <==> digits_value(cs@, i as int, r.0 as int) > u32::MAX,
{
    proof {
        lemma_digits_end(cs@, i as int);
    }
    let mut j: usize = i;
    let mut v: u64 = 0;
    while j < cs.len()
        invariant
            i <= j <= cs.len(),
            digits_end(cs@, i as int) == digits_end(cs@, j as int),
            forall|k: int| i <= k < j ==> #[trigger] digit_value(cs@[k]) is Some,
            digits_value(cs@, i as int, j as int) <= u32::MAX ==> v == digits_value(cs@, i as int, j as int),
            digits_value(cs@, i as int, j as int) > u32::MAX ==> v > u32::MAX,
            v <= u32::MAX + 1,
        ensures
            j == digits_end(cs@, i as int),
            digits_value(cs@, i as int, j as int) <= u32::MAX ==> v == digits_value(cs@, i as int, j as int),
            digits_value(cs@, i as int, j as int) > u32::MAX ==> v > u32::MAX,
        decreases cs.len() - j,
    {
        match digit_value_exec(cs[j]) {
            Some(d) => {
                proof {
                    lemma_digits_value_grows(cs@, i as int, j as int);
                }
                if v <= 0xffff_ffff {
                    let w = v * 10 + d as u64;
                    v = if w > 0xffff_ffff { 0x1_0000_0000 } else { w };
                }
                j = j + 1;
            },
            None => {
                break;
            },
        }
    }
    if v > 0xffff_ffff { (j, None) } else { (j, Some(v as u32)) }
}

/// The value of a decimal string as `u32::from_str` reads it: an optional
/// `+`, then one digit or more, at most `u32::MAX`.
pub open spec fn u32_text(cs: Seq<char>) -> Option<u32> {
    let start: int = if cs.len() > 0 && cs[0] == '+' { 1 } else { 0 };
    if start >= cs.len() || digits_end(cs, start) != cs.len() || digits_value(cs, start, cs.len() as int) > u32::MAX {
        None
    } else {
        Some(digits_value(cs, start, cs.len() as int) as u32)
    }
}

/// `s` as a `u32` in decimal (with an optional `+`), or `None`.
pub fn parse_u32(s: &str) -> (r: Option<u32>)
    ensures
        r == u32_text(s@),
{
    let cs = str_chars(s);
    let start: usize = if cs.len() > 0 && cs[0] == '+' { 1 } else { 0 };
    if start >= cs.len() {
        return None;
    }
    let (j, v) = scan_digits(&cs, start);
    if j != cs.len() {
        return None;
    }
    v
}

/// Why a string of pieces in hand is refused.
#[derive(Clone, Copy, Debug, PartialEq, Eq, Structural)]
pub enum HandFault {
    /// A count above `u32::MAX`.
    NotNumber,
    /// A count of 0 or 1 written out.
    Count,
    /// A character that names no piece.
    BadPiece,
    /// A count with no piece after it.
    Empty,
}

/// The side and kind a letter of a piece in hand names.
pub open spec fn hand_side_letter(c: char) -> Option<(Teban, MochigomaKind)> {
    match hand_letter(c) {
        Some(k) => Some((Teban::Sente, k)),
        None => {
            if c == 'r' { Some((Teban::Gote, MochigomaKind::Hisha)) }
            else if c == 'b' { Some((Teban::Gote, MochigomaKind::Kaku)) }
            else if c == 'g' { Some((Teban::Gote, MochigomaKind::Kin)) }
            else if c == 's' { Some((Teban::Gote, MochigomaKind::Gin)) }
            else if c == 'n' { Some((Teban::Gote, MochigomaKind::Kei)) }
            else if c == 'l' { Some((Teban::Gote, MochigomaKind::Kyou)) }
            else if c == 'p' { Some((Teban::Gote, MochigomaKind::Fu)) }
            else { None }
        },
    }
}

fn hand_side_letter_exec(c: char) -> (r: Option<(Teban, MochigomaKind)>)
    ensures
        r == hand_side_letter(c),
{
    match hand_letter_exec(c) {
        Some(k) => Some((Teban::Sente, k)),
        None => {
            if c == 'r' { Some((Teban::Gote, MochigomaKind::Hisha)) }
            else if c == 'b' { Some((Teban::Gote, MochigomaKind::Kaku)) }
            else if c == 'g' { Some((Teban::Gote, MochigomaKind::Kin)) }
            else if c == 's' { Some((Teban::Gote, MochigomaKind::Gin)) }
            else if c == 'n' { Some((Teban::Gote, MochigomaKind::Kei)) }
            else if c == 'l' { Some((Teban::Gote, MochigomaKind::Kyou)) }
            else if c == 'p' { Some((Teban::Gote, MochigomaKind::Fu)) }
            else { None }
        },
    }
}

/// Reading pieces in hand from character `i` with the counts `sc` (sente)
/// and `gc` (gote) so far: each piece letter, upper case for sente, may be
/// preceded by a count of at least two, and adds that many (one without a
/// count). Gives how the reading stopped and the counts at that point.
pub open spec fn hand_scan(cs: Seq<char>, i: int, sc: Seq<int>, gc: Seq<int>) -> (Option<HandFault>, Seq<int>, Seq<int>)
    decreases cs.len() - i,
{
    if i < 0 || i >= cs.len() {
        (None, sc, gc)
    } else {
        let j = digits_end(cs, i);
        if j < i {
            (None, sc, gc)
        } else if j >= cs.len() {
            (Some(HandFault::Empty), sc, gc)
        } else if j > i && digits_value(cs, i, j) > u32::MAX {
            (Some(HandFault::NotNumber), sc, gc)
        } else if j > i && digits_value(cs, i, j) <= 1 {
            (Some(HandFault::Count), sc, gc)
        } else {
            let n: int = if j > i { digits_value(cs, i, j) } else { 1 };
            match hand_side_letter(cs[j]) {
                None => (Some(HandFault::BadPiece), sc, gc),
                Some((t, k)) => if t == Teban::Sente {
                    hand_scan(cs, j + 1, sc.update(mochigoma_index(k), sc[mochigoma_index(k)] + n), gc)
                } else {
                    hand_scan(cs, j + 1, sc, gc.update(mochigoma_index(k), gc[mochigoma_index(k)] + n))
                },
            }
        }
    }
}

/// Reading on never lowers a count.
proof fn lemma_hand_scan_grows(cs: Seq<char>, i: int, sc: Seq<int>, gc: Seq<int>)
    requires
        sc.len() == 7,
        gc.len() == 7,
    ensures
        hand_scan(cs, i, sc, gc).1.len() == 7,
        hand_scan(cs, i, sc, gc).2.len() == 7,
        forall|k: int| 0 <= k < 7 ==> sc[k] <= #[trigger] hand_scan(cs, i, sc, gc).1[k],
        forall|k: int| 0 <= k < 7 ==> gc[k] <= #[trigger] hand_scan(cs, i, sc, gc).2[k],
    decreases cs.len() - i,
{
    if 0 <= i < cs.len() {
        let j = digits_end(cs, i);
        lemma_digits_end(cs, i);
        if j < cs.len() && j > i {
            lemma_digits_value_grows(cs, i, j);
        }
        if j >= i && j < cs.len() && !(j > i && (digits_value(cs, i, j) > u32::MAX || digits_value(cs, i, j) <= 1)) {
            let n: int = if j > i { digits_value(cs, i, j) } else { 1 };
            match hand_side_letter(cs[j]) {
                None => {},
                Some((t, k)) => {
                    let ki = mochigoma_index(k);
                    if t == Teban::Sente {
                        lemma_hand_scan_grows(cs, j + 1, sc.update(ki, sc[ki] + n), gc);
                    } else {
                        lemma_hand_scan_grows(cs, j + 1, sc, gc.update(ki, gc[ki] + n));
                    }
                },
            }
        }
    }
}

/// Seven zero counts.
pub open spec fn zero_counts() -> Seq<int> {
    Seq::new(7, |i: int| 0int)
}

/// How reading the pieces in hand `cs` ends: `-` is no piece at all.
pub open spec fn hand_parse(cs: Seq<char>) -> (Option<HandFault>, Seq<int>, Seq<int>) {
    if cs == seq!['-'] { (None, zero_counts(), zero_counts()) } else { hand_scan(cs, 0, zero_counts(), zero_counts()) }
}

/// Every count that reading the pieces in hand reaches fits in a `u32`.
pub open spec fn hand_fits(cs: Seq<char>) -> bool {
    let (_, sc, gc) = hand_parse(cs);
    forall|i: int| 0 <= i < 7 ==> #[trigger] sc[i] <= u32::MAX && gc[i] <= u32::MAX
}

/// The message that goes with a fault in the pieces in hand.
pub open spec fn hand_fault_message(f: HandFault) -> Seq<char> {
    match f {
        HandFault::NotNumber => "Failed parse string to integer."@,
        HandFault::Count => "Invalid SFEN character string (the number of pieces is illegal.)."@,
        HandFault::BadPiece => "Invalid SFEN character string (illegal representation character string of the piece)"@,
        HandFault::Empty => "Invalid SFEN character string (The type of piece is empty)"@,
    }
}

fn hand_fault_error(f: HandFault) -> (e: TypeConvertError)
    ensures
        e matches TypeConvertError::SyntaxError(m) && m@ == hand_fault_message(f),
{
    match f {
        HandFault::NotNumber => TypeConvertError::SyntaxError(String::from_str("Failed parse string to integer.")),
        HandFault::Count => TypeConvertError::SyntaxError(String::from_str(
            "Invalid SFEN character string (the number of pieces is illegal.).")),
        HandFault::BadPiece => TypeConvertError::SyntaxError(String::from_str(
            "Invalid SFEN character string (illegal representation character string of the piece)")),
        HandFault::Empty => TypeConvertError::SyntaxError(String::from_str(
            "Invalid SFEN character string (The type of piece is empty)")),
    }
}

/// The counts of a hand as integers.
pub open spec fn counts_of(m: Mochigoma) -> Seq<int> {
    Seq::new(7, |i: int| m@[i] as int)
}

impl<'a> TryFrom<&'a str, TypeConvertError> for MochigomaCollections {
    /// Every count the reading reaches fits in a `u32` (a larger sum overflows).
    open spec fn try_from_requires(s: &'a str) -> bool {
        hand_fits(s@)
    }

    /// `-` or a list of counted pieces gives both hands; a fault gives its error.
    open spec fn try_from_result(s: &'a str, r: Result<MochigomaCollections, TypeConvertError>) -> bool {
        match hand_parse(s@) {
            (None, sc, gc) => r matches Ok(MochigomaCollections::Pair(ms, mg))
                && counts_of(ms) == sc && counts_of(mg) == gc,
            (Some(f), _, _) => r matches Err(TypeConvertError::SyntaxError(m)) && m@ == hand_fault_message(f),
        }
    }

    fn try_from(s: &'a str) -> (r: Result<MochigomaCollections, TypeConvertError>) {
        let cs = str_chars(s);
        let mut ms = Mochigoma::new();
        let mut mg = Mochigoma::new();
        proof {
            crate::shogi::lemma_mochigoma_len(ms);
            crate::shogi::lemma_mochigoma_len(mg);
            assert(counts_of(ms) =~= zero_counts());
            assert(counts_of(mg) =~= zero_counts());
        }
        if cs.len() == 1 && cs[0] == '-' {
            proof {
                assert(s@ =~= seq!['-']);
            }
            return Ok(MochigomaCollections::Pair(ms, mg));
        }
        proof {
            assert(s@ != seq!['-']) by {
                if s@ == seq!['-'] { assert(cs@[0] == '-'); }
            }
        }
        let ghost whole = hand_parse(s@);
        let mut i: usize = 0;
        while i < cs.len()
            invariant
                cs@ == s@,
                i <= cs.len(),
                whole == hand_parse(s@),
                s@ != seq!['-'],
                hand_scan(s@, i as int, counts_of(ms), counts_of(mg)) == whole,
                hand_fits(s@),
            decreases cs.len() - i,
        {
            let (j, v) = scan_digits(&cs, i);
            proof {
                lemma_digits_end(cs@, i as int);
            }
            if j >= cs.len() {
                return Err(hand_fault_error(HandFault::Empty));
            }
            let n: u32 = if j > i {
                match v {
                    None => { return Err(hand_fault_error(HandFault::NotNumber)); },
                    Some(n) => {
                        if n <= 1 {
                            return Err(hand_fault_error(HandFault::Count));
                        }
                        n
                    },
                }
            } else {
                1
            };
            match hand_side_letter_exec(cs[j]) {
                None => { return Err(hand_fault_error(HandFault::BadPiece)); },
                Some((t, k)) => {
                    let ghost ki = mochigoma_index(k);
                    let ghost sc = counts_of(ms);
                    let ghost gc = counts_of(mg);
                    proof {
                        crate::shogi::lemma_mochigoma_len(ms);
                        crate::shogi::lemma_mochigoma_len(mg);
                    }
                    match t {
                        Teban::Sente => {
                            let c = ms.get(k);
                            proof {
                                let sc2 = sc.update(ki, sc[ki] + n);
                                assert(hand_scan(s@, j as int + 1, sc2, gc) == whole);
                                lemma_hand_scan_grows(s@, j as int + 1, sc2, gc);
                                assert(sc2[ki] <= whole.1[ki]);
                                assert(whole.1[ki] <= u32::MAX);
                            }
                            ms.insert(k, c + n);
                            proof {
                                crate::shogi::lemma_mochigoma_len(ms);
                                assert(counts_of(ms) =~= sc.update(ki, sc[ki] + n));
                            }
                        },
                        Teban::Gote => {
                            let c = mg.get(k);
                            proof {
                                let gc2 = gc.update(ki, gc[ki] + n);
                                assert(hand_scan(s@, j as int + 1, sc, gc2) == whole);
                                lemma_hand_scan_grows(s@, j as int + 1, sc, gc2);
                                assert(gc2[ki] <= whole.2[ki]);
                                assert(whole.2[ki] <= u32::MAX);
                            }
                            mg.insert(k, c + n);
                            proof {
                                crate::shogi::lemma_mochigoma_len(mg);
                                assert(counts_of(mg) =~= gc.update(ki, gc[ki] + n));
                            }
                        },
                    }
                    i = j + 1;
                },
            }
        }
        Ok(MochigomaCollections::Pair(ms, mg))
    }
}

/// The SFEN string of a piece (empty for a blank square).
pub open spec fn koma_sfen(k: KomaKind) -> Seq<char> {
    match k {
        KomaKind::SOu => seq!['K'], KomaKind::SHisha => seq!['R'], KomaKind::SKaku => seq!['B'],
        KomaKind::SKin => seq!['G'], KomaKind::SGin => seq!['S'], KomaKind::SKei => seq!['N'],
        KomaKind::SKyou => seq!['L'], KomaKind::SFu => seq!['P'],
        KomaKind::SHishaN => seq!['+', 'R'], KomaKind::SKakuN => seq!['+', 'B'], KomaKind::SGinN => seq!['+', 'S'],
        KomaKind::SKeiN => seq!['+', 'N'], KomaKind::SKyouN => seq!['+', 'L'], KomaKind::SFuN => seq!['+', 'P'],
        KomaKind::GOu => seq!['k'], KomaKind::GHisha => seq!['r'], KomaKind::GKaku => seq!['b'],
        KomaKind::GKin => seq!['g'], KomaKind::GGin => seq!['s'], KomaKind::GKei => seq!['n'],
        KomaKind::GKyou => seq!['l'], KomaKind::GFu => seq!['p'],
        KomaKind::GHishaN => seq!['+', 'r'], KomaKind::GKakuN => seq!['+', 'b'], KomaKind::GGinN => seq!['+', 's'],
        KomaKind::GKeiN => seq!['+', 'n'], KomaKind::GKyouN => seq!['+', 'l'], KomaKind::GFuN => seq!['+', 'p'],
        KomaKind::Blank => Seq::<char>::empty(),
    }
}

/// Appends the SFEN string of a piece.
fn push_koma(s: &mut String, k: KomaKind)
    ensures
        final(s)@ == old(s)@ + koma_sfen(k),
{
    let ghost s0 = s@;
    match k {
        KomaKind::SOu => string_push(s, 'K'), KomaKind::SHisha => string_push(s, 'R'), KomaKind::SKaku => string_push(s, 'B'),
        KomaKind::SKin => string_push(s, 'G'), KomaKind::SGin => string_push(s, 'S'), KomaKind::SKei => string_push(s, 'N'),
        KomaKind::SKyou => string_push(s, 'L'), KomaKind::SFu => string_push(s, 'P'),
        KomaKind::SHishaN => { string_push(s, '+'); string_push(s, 'R'); },
        KomaKind::SKakuN => { string_push(s, '+'); string_push(s, 'B'); },
        KomaKind::SGinN => { string_push(s, '+'); string_push(s, 'S'); },
        KomaKind::SKeiN => { string_push(s, '+'); string_push(s, 'N'); },
        KomaKind::SKyouN => { string_push(s, '+'); string_push(s, 'L'); },
        KomaKind::SFuN => { string_push(s, '+'); string_push(s, 'P'); },
        KomaKind::GOu => string_push(s, 'k'), KomaKind::GHisha => string_push(s, 'r'), KomaKind::GKaku => string_push(s, 'b'),
        KomaKind::GKin => string_push(s, 'g'), KomaKind::GGin => string_push(s, 's'), KomaKind::GKei => string_push(s, 'n'),
        KomaKind::GKyou => string_push(s, 'l'), KomaKind::GFu => string_push(s, 'p'),
        KomaKind::GHishaN => { string_push(s, '+'); string_push(s, 'r'); },
        KomaKind::GKakuN => { string_push(s, '+'); string_push(s, 'b'); },
        KomaKind::GGinN => { string_push(s, '+'); string_push(s, 's'); },
        KomaKind::GKeiN => { string_push(s, '+'); string_push(s, 'n'); },
        KomaKind::GKyouN => { string_push(s, '+'); string_push(s, 'l'); },
        KomaKind::GFuN => { string_push(s, '+'); string_push(s, 'p'); },
        KomaKind::Blank => {},
    }
    proof {
        assert(s@ =~= s0 + koma_sfen(k));
    }
}

/// The SFEN text of a row from column `x` on, with `n` blanks pending:
/// each run of blanks as its length, each piece as its string.
pub open spec fn row_sfen(row: Seq<KomaKind>, x: int, n: int) -> Seq<char>
    decreases 9 - x,
{
    if x >= 9 {
        if n > 0 { seq![digit_char(n)] } else { Seq::<char>::empty() }
    } else if row[x] == KomaKind::Blank {
        row_sfen(row, x + 1, n + 1)
    } else {
        (if n > 0 { seq![digit_char(n)] } else { Seq::<char>::empty() }) + koma_sfen(row[x]) + row_sfen(row, x + 1, 0)
    }
}

/// The SFEN text of the first `n` rows, joined by `/`.
pub open spec fn rows_sfen(g: Seq<Seq<KomaKind>>, n: int) -> Seq<char>
    decreases n,
{
    if n <= 0 {
        Seq::<char>::empty()
    } else if n == 1 {
        row_sfen(g[0], 0, 0)
    } else {
        rows_sfen(g, n - 1).push('/') + row_sfen(g[n - 1], 0, 0)
    }
}

/// Appends the SFEN text of a row.
fn push_row(s: &mut String, row: &[KomaKind; 9])
    ensures
        final(s)@ == old(s)@ + row_sfen(row@, 0, 0),
{
    let ghost s0 = s@;
    let mut n: u32 = 0;
    let mut x: usize = 0;
    while x < 9
        invariant
            x <= 9,
            n <= x,
            s@ + row_sfen(row@, x as int, n as int) == s0 + row_sfen(row@, 0, 0),
        decreases 9 - x,
    {
        let k = row[x];
        if k == KomaKind::Blank {
            n = n + 1;
        } else {
            let ghost before = s@;
            if n > 0 {
                string_push(s, digit_char_exec(n));
                n = 0;
            }
            push_koma(s, k);
        }
        x = x + 1;
    }
    if n > 0 {
        string_push(s, digit_char_exec(n));
    }
    proof {
        assert(s@ =~= s0 + row_sfen(row@, 0, 0));
    }
}

impl ToSfen<TypeConvertError> for Banmen {
    /// Any board can be written.
    open spec fn to_sfen_requires(&self) -> bool {
        true
    }

    /// The rows from the top, joined by `/`.
    open spec fn to_sfen_result(&self, r: Result<String, TypeConvertError>) -> bool {
        r matches Ok(s) && s@ == rows_sfen(banmen_grid(self.0), 9)
    }

    fn to_sfen(&self) -> (r: Result<String, TypeConvertError>) {
        let mut s = String::new();
        let mut y: usize = 0;
        while y < 9
            invariant
                y <= 9,
                s@ == rows_sfen(banmen_grid(self.0), y as int),
            decreases 9 - y,
        {
            if y > 0 {
                string_push(&mut s, '/');
            }
            push_row(&mut s, &self.0[y]);
            y = y + 1;
            proof {
                assert(s@ =~= rows_sfen(banmen_grid(self.0), y as int));
            }
        }
        Ok(s)
    }
}

impl ToSfen<TypeConvertError> for Teban {
    /// Either side can be written.
    open spec fn to_sfen_requires(&self) -> bool {
        true
    }

    /// `b` for sente, `w` for gote.
    open spec fn to_sfen_result(&self, r: Result<String, TypeConvertError>) -> bool {
        r matches Ok(s) && s@ == (if *self == Teban::Sente { seq!['b'] } else { seq!['w'] })
    }

    fn to_sfen(&self) -> (r: Result<String, TypeConvertError>) {
        let mut s = String::new();
        match self {
            Teban::Sente => string_push(&mut s, 'b'),
            Teban::Gote => string_push(&mut s, 'w'),
        }
        proof {
            assert(s@ =~= (if *self == Teban::Sente { seq!['b'] } else { seq!['w'] }));
        }
        Ok(s)
    }
}

/// The letter of the piece in hand numbered `i` (0 for pawns to 6 for rooks), upper case for sente.
pub open spec fn hand_char(i: int, sente: bool) -> char {
    if sente {
        if i == 0 { 'P' } else if i == 1 { 'L' } else if i == 2 { 'N' } else if i == 3 { 'S' }
        else if i == 4 { 'G' } else if i == 5 { 'B' } else { 'R' }
    } else {
        if i == 0 { 'p' } else if i == 1 { 'l' } else if i == 2 { 'n' } else if i == 3 { 's' }
        else if i == 4 { 'g' } else if i == 5 { 'b' } else { 'r' }
    }
}

fn hand_char_exec(i: usize, sente: bool) -> (c: char)
    ensures
        c == hand_char(i as int, sente),
{
    if sente {
        if i == 0 { 'P' } else if i == 1 { 'L' } else if i == 2 { 'N' } else if i == 3 { 'S' }
        else if i == 4 { 'G' } else if i == 5 { 'B' } else { 'R' }
    } else {
        if i == 0 { 'p' } else if i == 1 { 'l' } else if i == 2 { 'n' } else if i == 3 { 's' }
        else if i == 4 { 'g' } else if i == 5 { 'b' } else { 'r' }
    }
}

/// The SFEN text of one hand over its first `n` kinds from rooks down to
/// pawns: each count above one before the piece's letter, a lone piece as
/// its letter alone (for both sides alike, since reading a hand refuses a
/// written count of one).
pub open spec fn hand_sfen(c: Seq<u32>, sente: bool, n: int) -> Seq<char>
    decreases n,
{
    if n <= 0 {
        Seq::<char>::empty()
    } else {
        hand_sfen(c, sente, n - 1) + hand_token(c[7 - n], 7 - n, sente)
    }
}

/// The text of `v` pieces of the kind numbered `i`: the count when above one,
/// then the letter; nothing for none. A count of one is never written, for
/// either side: `hand_scan` refuses it, so the text reads back as the hands.
pub open spec fn hand_token(v: u32, i: int, sente: bool) -> Seq<char> {
    if v > 1 {
        decimal(v as nat).push(hand_char(i, sente))
    } else if v == 1 {
        seq![hand_char(i, sente)]
    } else {
        Seq::<char>::empty()
    }
}

/// The SFEN text of the pieces in hand: `-` for none.
pub open spec fn hands_sfen(mc: MochigomaCollections) -> Seq<char> {
    match mc {
        MochigomaCollections::Empty => seq!['-'],
        MochigomaCollections::Pair(ms, mg) => {
            let t = hand_sfen(ms@, true, 7) + hand_sfen(mg@, false, 7);
            if t.len() == 0 { seq!['-'] } else { t }
        },
    }
}

/// Appends the SFEN text of one hand.
fn push_hand(s: &mut String, m: &Mochigoma, sente: bool)
    ensures
        final(s)@ == old(s)@ + hand_sfen(m@, sente, 7),
{
    let ghost s0 = s@;
    proof {
        crate::shogi::lemma_mochigoma_len(*m);
    }
    let mut n: usize = 0;
    while n < 7
        invariant
            n <= 7,
            m@.len() == 7,
            s@ == s0 + hand_sfen(m@, sente, n as int),
        decreases 7 - n,
    {
        let i = 6 - n;
        let k = crate::shogi::MochigomaKind::from_index(i as u32);
        let v = m.get(k);
        let ghost before = s@;
        if v > 1 {
            push_decimal(s, v as u64);
            string_push(s, hand_char_exec(i, sente));
        } else if v == 1 {
            string_push(s, hand_char_exec(i, sente));
        }
        n = n + 1;
        proof {
            assert(s@ =~= s0 + hand_sfen(m@, sente, n as int));
        }
    }
}

impl ToSfen<TypeConvertError> for MochigomaCollections {
    /// Any hands can be written.
    open spec fn to_sfen_requires(&self) -> bool {
        true
    }

    /// Sente's pieces then gote's, rooks first; `-` when there are none.
    open spec fn to_sfen_result(&self, r: Result<String, TypeConvertError>) -> bool {
        r matches Ok(s) && s@ == hands_sfen(*self)
    }

    fn to_sfen(&self) -> (r: Result<String, TypeConvertError>) {
        match self {
            MochigomaCollections::Empty => {
                let mut s = String::new();
                string_push(&mut s, '-');
                proof {
                    assert(s@ =~= seq!['-']);
                }
                Ok(s)
            },
            MochigomaCollections::Pair(ms, mg) => {
                let mut s = String::new();
                push_hand(&mut s, ms, true);
                push_hand(&mut s, mg, false);
                if s.unicode_len() == 0 {
                    let mut d = String::new();
                    string_push(&mut d, '-');
                    proof {
                        assert(d@ =~= seq!['-']);
                    }
                    Ok(d)
                } else {
                    proof {
                        assert(s@ =~= hand_sfen(ms@, true, 7) + hand_sfen(mg@, false, 7));
                    }
                    Ok(s)
                }
            },
        }
    }
}

/// Appends the characters of `t`.
fn push_chars(s: &mut String, t: &String)
    ensures
        final(s)@ == old(s)@ + t@,
{
    s.append(t.as_str());
}

/// The SFEN text of a position: `startpos` for the starting position with
/// sente to move and no piece in hand, otherwise
/// `sfen <board> <side> <hands> 1`.
pub open spec fn position_head(t: Teban, b: Banmen, mc: MochigomaCollections) -> Seq<char> {
    let h = hands_sfen(mc);
    if t == Teban::Sente && h == seq!['-'] && banmen_grid(b.0) == start_grid() {
        "startpos"@
    } else {
        "sfen "@ + rows_sfen(banmen_grid(b.0), 9) + seq![' '] + (if t == Teban::Sente { seq!['b'] } else { seq!['w'] })
            + seq![' '] + h + " 1"@
    }
}

impl ToSfen<SfenStringConvertError> for (Teban, Banmen, MochigomaCollections, Vec<Move>) {
    /// Every move can be written without failing on a row of 0.
    open spec fn to_sfen_requires(&self) -> bool {
        forall|i: int| 0 <= i < self.3.len() ==> move_writable(#[trigger] self.3@[i])
    }

    /// The position, then ` moves ` and the moves when there are any; a move
    /// whose row cannot be written gives the error.
    open spec fn to_sfen_result(&self, r: Result<String, SfenStringConvertError>) -> bool {
        let head = position_head(self.0, self.1, self.2);
        if self.3.len() > 0 {
            match moves_text(self.3@) {
                Ok(t) => r matches Ok(s) && s@ == head + " moves "@ + t,
                Err(e) => r == Err::<String, SfenStringConvertError>(SfenStringConvertError::ToMoveString(
                    ToMoveStringConvertError::CharConvert(DanConvertError(e)))),
            }
        } else {
            r matches Ok(s) && s@ == head
        }
    }

    fn to_sfen(&self) -> (r: Result<String, SfenStringConvertError>) {
        let (t, b, mc, m) = self;
        let hs = match mc.to_sfen() {
            Ok(h) => h,
            Err(e) => { return Err(SfenStringConvertError::TypeConvertError(e)); },
        };
        let start = banmen_start_pos();
        let dash = hs.unicode_len() == 1 && hs.as_str().get_char(0) == '-';
        proof {
            if dash {
                assert(hs@ =~= seq!['-']);
            }
        }
        let mut s = if *t == Teban::Sente && dash && banmen_eq(b, &start) {
            String::from_str("startpos")
        } else {
            let bs = match b.to_sfen() {
                Ok(v) => v,
                Err(e) => { return Err(SfenStringConvertError::TypeConvertError(e)); },
            };
            let ts = match t.to_sfen() {
                Ok(v) => v,
                Err(e) => { return Err(SfenStringConvertError::TypeConvertError(e)); },
            };
            let mut s = String::from_str("sfen ");
            push_chars(&mut s, &bs);
            string_push(&mut s, ' ');
            push_chars(&mut s, &ts);
            string_push(&mut s, ' ');
            push_chars(&mut s, &hs);
            s.append(" 1");
            s
        };
        proof {
            assert(s@ =~= position_head(*t, *b, *mc));
        }
        if m.len() > 0 {
            let ms = match m.to_sfen() {
                Ok(v) => v,
                Err(e) => { return Err(SfenStringConvertError::ToMoveString(e)); },
            };
            s.append(" moves ");
            push_chars(&mut s, &ms);
        }
        Ok(s)
    }
}

impl ToSfen<ToMoveStringConvertError> for BestMove {
    /// The moves, if any, can be written without failing on a row of 0.
    open spec fn to_sfen_requires(&self) -> bool {
        match *self {
            BestMove::Move(m, None) => move_writable(m),
            BestMove::Move(m, Some(pm)) => move_writable(m) && (move_text(m) is Ok ==> move_writable(pm)),
            _ => true,
        }
    }

    /// `resign`, `win`, the move, or the move, ` ponder ` and the expected reply;
    /// an aborted search has no string.
    open spec fn to_sfen_result(&self, r: Result<String, ToMoveStringConvertError>) -> bool {
        match *self {
            BestMove::Resign => r matches Ok(s) && s@ == "resign"@,
            BestMove::Win => r matches Ok(s) && s@ == "win"@,
            BestMove::Abort => r == Err::<String, ToMoveStringConvertError>(ToMoveStringConvertError::AbortedError),
            BestMove::Move(m, None) => match move_text(m) {
                Ok(t) => r matches Ok(s) && s@ == t,
                Err(e) => r == Err::<String, ToMoveStringConvertError>(ToMoveStringConvertError::CharConvert(DanConvertError(e))),
            },
            BestMove::Move(m, Some(pm)) => match (move_text(m), move_text(pm)) {
                (Ok(t), Ok(u)) => r matches Ok(s) && s@ == t + " ponder "@ + u,
                (Err(e), _) => r == Err::<String, ToMoveStringConvertError>(ToMoveStringConvertError::CharConvert(DanConvertError(e))),
                (Ok(_), Err(e)) => r == Err::<String, ToMoveStringConvertError>(ToMoveStringConvertError::CharConvert(DanConvertError(e))),
            },
        }
    }

    fn to_sfen(&self) -> (r: Result<String, ToMoveStringConvertError>) {
        match self {
            BestMove::Resign => Ok(String::from_str("resign")),
            BestMove::Win => Ok(String::from_str("win")),
            BestMove::Abort => Err(ToMoveStringConvertError::AbortedError),
            BestMove::Move(m, None) => move_to_string(m),
            BestMove::Move(m, Some(pm)) => {
                let mut s = move_to_string(m)?;
                let p = move_to_string(pm)?;
                s.append(" ponder ");
                push_chars(&mut s, &p);
                Ok(s)
            },
        }
    }
}

/// Whether every move of `ms` lies on the board.
pub open spec fn all_valid(ms: Seq<Move>) -> bool {
    forall|i: int| 0 <= i < ms.len() ==> valid_move(#[trigger] ms[i])
}

/// The moves of `ms` joined by spaces, each on the board; `None` when one is not.
fn valid_moves_text(ms: &Vec<Move>) -> (r: Option<String>)
    ensures
        all_valid(ms@) ==> (r matches Some(s) && moves_text(ms@) == Ok::<Seq<char>, u32>(s@)),
        !all_valid(ms@) ==> r is None,
{
    let mut i: usize = 0;
    while i < ms.len()
        invariant
            i <= ms.len(),
            forall|j: int| 0 <= j < i ==> valid_move(#[trigger] ms@[j]),
        decreases ms.len() - i,
    {
        if !ms[i].validate() {
            return None;
        }
        i = i + 1;
    }
    proof {
        lemma_valid_moves_text(ms@, ms.len() as int);
    }
    match ms.to_sfen() {
        Ok(s) => Some(s),
        Err(_) => None,
    }
}

/// Moves on the board always have a text.
proof fn lemma_valid_moves_text(ms: Seq<Move>, n: int)
    requires
        0 <= n <= ms.len(),
        forall|j: int| 0 <= j < ms.len() ==> valid_move(#[trigger] ms[j]),
    ensures
        moves_text(ms.subrange(0, n)) is Ok,
        n == ms.len() ==> moves_text(ms) is Ok,
    decreases n,
{
    if n > 0 {
        lemma_valid_moves_text(ms, n - 1);
        let sub = ms.subrange(0, n);
        assert(sub.drop_last() =~= ms.subrange(0, n - 1));
        assert(valid_move(ms[n - 1]));
    }
    if n == ms.len() {
        assert(ms.subrange(0, n) =~= ms);
    }
}

impl ToSfen<UsiOutputCreateError> for CheckMate {
    /// Any answer to a mate search can be written.
    open spec fn to_sfen_requires(&self) -> bool {
        true
    }

    /// The moves of a mate (at least one, each on the board) joined by
    /// spaces, `notimplemented`, `timeout` or `nomate`; an aborted search has
    /// no string, and a bad list of moves is an invalid state.
    open spec fn to_sfen_result(&self, r: Result<String, UsiOutputCreateError>) -> bool {
        match *self {
            CheckMate::Moves(v) => if v.len() < 1 || !all_valid(v@) {
                r matches Err(UsiOutputCreateError::InvalidStateError(m)) && m@ == "checkmate"@
            } else {
                r matches Ok(s) && moves_text(v@) == Ok::<Seq<char>, u32>(s@)
            },
            CheckMate::NotiImplemented => r matches Ok(s) && s@ == "notimplemented"@,
            CheckMate::Timeout => r matches Ok(s) && s@ == "timeout"@,
            CheckMate::Nomate => r matches Ok(s) && s@ == "nomate"@,
            CheckMate::Abort => r matches Err(UsiOutputCreateError::AbortedError),
        }
    }

    fn to_sfen(&self) -> (r: Result<String, UsiOutputCreateError>) {
        match self {
            CheckMate::Moves(v) => {
                if v.len() < 1 {
                    return Err(UsiOutputCreateError::InvalidStateError(String::from_str("checkmate")));
                }
                match valid_moves_text(v) {
                    Some(s) => Ok(s),
                    None => Err(UsiOutputCreateError::InvalidStateError(String::from_str("checkmate"))),
                }
            },
            CheckMate::NotiImplemented => Ok(String::from_str("notimplemented")),
            CheckMate::Timeout => Ok(String::from_str("timeout")),
            CheckMate::Nomate => Ok(String::from_str("nomate")),
            CheckMate::Abort => Err(UsiOutputCreateError::AbortedError),
        }
    }
}

/// An error as a spec value: whether it is a logic error, and its message.
pub open spec fn error_is(e: TypeConvertError, d: (bool, Seq<char>)) -> bool {
    match e {
        TypeConvertError::SyntaxError(m) => !d.0 && m@ == d.1,
        TypeConvertError::LogicError(m) => d.0 && m@ == d.1,
    }
}

/// The message of a malformed `position` command.
pub open spec fn position_format_message() -> Seq<char> {
    "The format of the position command input is invalid."@
}

/// The moves the strings `ps` name, read in order; the first that names none gives the error.
pub open spec fn moves_parse(ps: Seq<Seq<char>>) -> Result<Seq<Move>, (bool, Seq<char>)>
    decreases ps.len(),
{
    if ps.len() == 0 {
        Ok(Seq::<Move>::empty())
    } else {
        match moves_parse(ps.drop_last()) {
            Err(e) => Err(e),
            Ok(v) => match move_parse(ps.last()) {
                Ok(m) => Ok(v.push(m)),
                Err(f) => Err((f == MoveFault::Trailing, move_fault_message(f))),
            },
        }
    }
}

/// The position a parsed command gives: the side to move, the board rows and
/// hand counts (`None` for the starting position), the move number and the moves.
pub type PositionSpec = (Teban, Option<(Seq<Seq<KomaKind>>, Seq<int>, Seq<int>)>, u32, Seq<Move>);

/// Reading the parameters of `position` after `startpos`: nothing, or
/// `moves` and at least one move.
pub open spec fn startpos_parse(ps: Seq<Seq<char>>) -> Result<PositionSpec, (bool, Seq<char>)> {
    if ps.len() == 0 {
        Ok((Teban::Sente, None, 1u32, Seq::<Move>::empty()))
    } else if ps[0] == "moves"@ && ps.len() >= 2 {
        match moves_parse(ps.subrange(1, ps.len() as int)) {
            Ok(v) => Ok((Teban::Sente, None, 1u32, v)),
            Err(e) => Err(e),
        }
    } else {
        Err((false, position_format_message()))
    }
}

/// Reading the parameters of `position` after `sfen`: board, side, hands,
/// move number, then optionally `moves` and at least one move. The moves are
/// read first, then the side, the board, the hands and the number.
pub open spec fn sfen_parse(ps: Seq<Seq<char>>) -> Result<PositionSpec, (bool, Seq<char>)> {
    if ps.len() > 4 && (ps[4] != "moves"@ || ps.len() <= 5) {
        Err((false, position_format_message()))
    } else if ps.len() <= 3 {
        Err((false, position_format_message()))
    } else {
        let mv = if ps.len() > 5 { moves_parse(ps.subrange(5, ps.len() as int)) } else { Ok(Seq::<Move>::empty()) };
        match mv {
            Err(e) => Err(e),
            Ok(v) => match teban_text(ps[1]) {
                None => Err((false, "It is an illegal character string as a character string representing a turn."@)),
                Some(t) => match banmen_scan(ps[0], 0, 0, 0, blank_grid()) {
                    Err((f, x)) => Err((f == BanmenFault::Logic, banmen_fault_message(f, x))),
                    Ok(g) => match hand_parse(ps[2]) {
                        (Some(f), _, _) => Err((false, hand_fault_message(f))),
                        (None, sc, gc) => match u32_text(ps[3]) {
                            None => Err((false, "Failed parse string to integer."@)),
                            Some(n) => Ok((t, Some((g, sc, gc)), n, v)),
                        },
                    },
                },
            },
        }
    }
}

/// Whether reading the `sfen` parameters reaches the pieces in hand.
pub open spec fn sfen_reaches_hands(ps: Seq<Seq<char>>) -> bool {
    &&& ps.len() > 3
    &&& !(ps.len() > 4 && (ps[4] != "moves"@ || ps.len() <= 5))
    &&& (ps.len() > 5 ==> moves_parse(ps.subrange(5, ps.len() as int)) is Ok)
    &&& teban_text(ps[1]) is Some
    &&& banmen_scan(ps[0], 0, 0, 0, blank_grid()) is Ok
}

/// Reading the parameters of a `position` command.
pub open spec fn position_parse(ps: Seq<Seq<char>>) -> Result<PositionSpec, (bool, Seq<char>)> {
    if ps.len() == 0 {
        Err((false, position_format_message()))
    } else if ps[0] == "startpos"@ {
        startpos_parse(ps.subrange(1, ps.len() as int))
    } else if ps[0] == "sfen"@ {
        sfen_parse(ps.subrange(1, ps.len() as int))
    } else {
        Err((false, "The input form of the position command is invalid. (Insufficient parameters)"@))
    }
}

/// The characters of each parameter.
pub open spec fn params_view(params: Seq<&str>) -> Seq<Seq<char>> {
    Seq::new(params.len(), |i: int| params[i]@)
}

/// Whether a parse result is the position `p`.
pub open spec fn position_is(r: PositionParseResult, p: PositionSpec) -> bool {
    &&& r.0 == p.0
    &&& r.2 == p.2
    &&& r.3@ == p.3
    &&& match p.1 {
        None => r.1 == UsiInitialPosition::Startpos,
        Some((g, sc, gc)) => r.1 matches UsiInitialPosition::Sfen(b, MochigomaCollections::Pair(ms, mg))
            && banmen_grid(b.0) == g && counts_of(ms) == sc && counts_of(mg) == gc,
    }
}

/// The result of parsing a `position` command: side to move, initial
/// position, move number and the moves played from it.
pub struct PositionParseResult(pub Teban, pub UsiInitialPosition, pub u32, pub Vec<Move>);

impl PositionParseResult {
    /// The side, board, hands (both present, empty for the starting position), move number and moves.
    pub fn extract(self) -> (r: (Teban, Banmen, MochigomaCollections, u32, Vec<Move>))
        ensures
            r.0 == self.0,
            r.3 == self.2,
            r.4 == self.3,
            match self.1 {
                UsiInitialPosition::Startpos => banmen_grid(r.1.0) == start_grid()
                    && (r.2 matches MochigomaCollections::Pair(ms, mg) && counts_of(ms) == zero_counts() && counts_of(mg) == zero_counts()),
                UsiInitialPosition::Sfen(b, MochigomaCollections::Pair(ms, mg)) => r.1 == b
                    && r.2 == MochigomaCollections::Pair(ms, mg),
                UsiInitialPosition::Sfen(b, MochigomaCollections::Empty) => r.1 == b
                    && (r.2 matches MochigomaCollections::Pair(ms, mg) && counts_of(ms) == zero_counts() && counts_of(mg) == zero_counts()),
            },
    {
        let PositionParseResult(teban, p, n, m) = self;
        let ms = Mochigoma::new();
        let mg = Mochigoma::new();
        proof {
            crate::shogi::lemma_mochigoma_len(ms);
            assert(counts_of(ms) =~= zero_counts());
            assert(counts_of(mg) =~= zero_counts());
        }
        let (banmen, mc) = match p {
            UsiInitialPosition::Startpos => (banmen_start_pos(), MochigomaCollections::Pair(ms, mg)),
            UsiInitialPosition::Sfen(b, MochigomaCollections::Pair(s, g)) => (b, MochigomaCollections::Pair(s, g)),
            UsiInitialPosition::Sfen(b, MochigomaCollections::Empty) => (b, MochigomaCollections::Pair(ms, mg)),
        };
        (teban, banmen, mc, n, m)
    }
}

/// Reads the moves `params[start..]`, in order.
fn parse_moves(params: &[&str], start: usize) -> (r: Result<Vec<Move>, TypeConvertError>)
    requires
        start <= params@.len(),
    ensures
        match moves_parse(params_view(params@).subrange(start as int, params@.len() as int)) {
            Ok(v) => r matches Ok(w) && w@ == v,
            Err(d) => r matches Err(e) && error_is(e, d),
        },
{
    let ghost pv = params_view(params@);
    let mut v: Vec<Move> = Vec::new();
    let mut i: usize = start;
    proof {
        assert(pv.subrange(start as int, start as int) =~= Seq::<Seq<char>>::empty());
    }
    while i < params.len()
        invariant
            start <= i <= params@.len(),
            pv == params_view(params@),
            moves_parse(pv.subrange(start as int, i as int)) == Ok::<Seq<Move>, (bool, Seq<char>)>(v@),
        decreases params.len() - i,
    {
        let ghost pre = pv.subrange(start as int, i as int);
        let ghost next = pv.subrange(start as int, i as int + 1);
        proof {
            assert(next.drop_last() =~= pre);
            assert(next.last() == params@[i as int]@);
        }
        match <Move as TryFrom<&str, TypeConvertError>>::try_from(params[i]) {
            Ok(m) => {
                v.push(m);
            },
            Err(e) => {
                proof {
                    lemma_moves_parse_err(pv.subrange(start as int, params@.len() as int), i - start + 1);
                    assert(pv.subrange(start as int, params@.len() as int).subrange(0, i - start + 1) =~= next);
                }
                return Err(e);
            },
        }
        i = i + 1;
    }
    proof {
        assert(pv.subrange(start as int, i as int) =~= pv.subrange(start as int, params@.len() as int));
    }
    Ok(v)
}

/// An error among the first `n` move strings is the error of all of them.
proof fn lemma_moves_parse_err(ps: Seq<Seq<char>>, n: int)
    requires
        0 <= n <= ps.len(),
        moves_parse(ps.subrange(0, n)) is Err,
    ensures
        moves_parse(ps) == moves_parse(ps.subrange(0, n)),
    decreases ps.len() - n,
{
    if n < ps.len() {
        assert(ps.subrange(0, n + 1).drop_last() =~= ps.subrange(0, n));
        lemma_moves_parse_err(ps, n + 1);
    } else {
        assert(ps.subrange(0, n) =~= ps);
    }
}

/// Parser of the parameters of the `position` command.
pub struct PositionParser {}

impl PositionParser {
    /// A parser.
    pub fn new() -> (r: PositionParser)
        ensures
            r == (PositionParser {}),
    {
        PositionParser {}
    }

    /// The position the parameters of a `position` command describe
    /// (`startpos` or `sfen ...`, optionally followed by `moves ...`).
    pub fn parse(&self, params: &[&str]) -> (r: Result<PositionParseResult, TypeConvertError>)
        requires
            params@.len() > 0 && params@[0]@ == "sfen"@ && sfen_reaches_hands(params_view(params@).subrange(1, params@.len() as int))
                ==> hand_fits(params@[3]@),
        ensures
            match position_parse(params_view(params@)) {
                Ok(p) => r matches Ok(v) && position_is(v, p),
                Err(d) => r matches Err(e) && error_is(e, d),
            },
    {
        let ghost pv = params_view(params@);
        if params.len() == 0 {
            return Err(TypeConvertError::SyntaxError(String::from_str(
                "The format of the position command input is invalid.")));
        }
        proof {
            assert(pv[0] == params@[0]@);
        }
        if str_eq(params[0], "startpos") {
            self.parse_startpos(params)
        } else if str_eq(params[0], "sfen") {
            self.parse_sfen(params)
        } else {
            Err(TypeConvertError::SyntaxError(String::from_str(
                "The input form of the position command is invalid. (Insufficient parameters)")))
        }
    }

    fn parse_startpos(&self, params: &[&str]) -> (r: Result<PositionParseResult, TypeConvertError>)
        requires
            params@.len() > 0,
        ensures
            match startpos_parse(params_view(params@).subrange(1, params@.len() as int)) {
                Ok(p) => r matches Ok(v) && position_is(v, p),
                Err(d) => r matches Err(e) && error_is(e, d),
            },
    {
        let ghost ps = params_view(params@).subrange(1, params@.len() as int);
        if params.len() == 1 {
            return Ok(PositionParseResult(Teban::Sente, UsiInitialPosition::Startpos, 1, Vec::new()));
        }
        proof {
            assert(ps[0] == params@[1]@);
        }
        if str_eq(params[1], "moves") && params.len() >= 3 {
            let r = parse_moves(params, 2);
            proof {
                assert(ps.subrange(1, ps.len() as int) =~= params_view(params@).subrange(2, params@.len() as int));
            }
            match r {
                Ok(v) => Ok(PositionParseResult(Teban::Sente, UsiInitialPosition::Startpos, 1, v)),
                Err(e) => Err(e),
            }
        } else {
            Err(TypeConvertError::SyntaxError(String::from_str(
                "The format of the position command input is invalid.")))
        }
    }

    fn parse_sfen(&self, params: &[&str]) -> (r: Result<PositionParseResult, TypeConvertError>)
        requires
            params@.len() > 0,
            sfen_reaches_hands(params_view(params@).subrange(1, params@.len() as int)) ==> hand_fits(params@[3]@),
        ensures
            match sfen_parse(params_view(params@).subrange(1, params@.len() as int)) {
                Ok(p) => r matches Ok(v) && position_is(v, p),
                Err(d) => r matches Err(e) && error_is(e, d),
            },
    {
        let ghost ps = params_view(params@).subrange(1, params@.len() as int);
        let n = params.len() - 1;
        if n > 4 {
            proof {
                assert(ps[4] == params@[5]@);
            }
            if !str_eq(params[5], "moves") || n <= 5 {
                return Err(TypeConvertError::SyntaxError(String::from_str(
                    "The format of the position command input is invalid.")));
            }
        }
        if n <= 3 {
            return Err(TypeConvertError::SyntaxError(String::from_str(
                "The format of the position command input is invalid.")));
        }
        proof {
            assert(ps[0] == params@[1]@);
            assert(ps[1] == params@[2]@);
            assert(ps[2] == params@[3]@);
            assert(ps[3] == params@[4]@);
        }
        let mv = if n > 5 {
            let r = parse_moves(params, 6);
            proof {
                assert(ps.subrange(5, ps.len() as int) =~= params_view(params@).subrange(6, params@.len() as int));
            }
            match r {
                Ok(v) => v,
                Err(e) => { return Err(e); },
            }
        } else {
            Vec::new()
        };
        let t = match <Teban as TryFrom<&str, TypeConvertError>>::try_from(params[2]) {
            Ok(t) => t,
            Err(e) => { return Err(e); },
        };
        let b = match <Banmen as TryFrom<&str, TypeConvertError>>::try_from(params[1]) {
            Ok(b) => b,
            Err(e) => { return Err(e); },
        };
        let mc = match <MochigomaCollections as TryFrom<&str, TypeConvertError>>::try_from(params[3]) {
            Ok(mc) => mc,
            Err(e) => { return Err(e); },
        };
        let k = match parse_u32(params[4]) {
            Some(k) => k,
            None => { return Err(TypeConvertError::SyntaxError(String::from_str("Failed parse string to integer."))); },
        };
        Ok(PositionParseResult(t, UsiInitialPosition::Sfen(b, mc), k, mv))
    }
}

/// Makes the search command for a time limit: a normal search or a ponder.
pub struct UsiGoCreator {
    ponder: bool,
}

impl UsiGoCreator {
    /// A maker of ponder commands when `ponder`, of normal searches otherwise.
    pub fn new(ponder: bool) -> (r: UsiGoCreator)
        ensures
            r.is_ponder() == ponder,
    {
        UsiGoCreator { ponder }
    }

    /// Whether the commands made are ponders.
    pub closed spec fn is_ponder(&self) -> bool {
        self.ponder
    }

    /// The search command with limit `l`.
    pub fn create(&self, l: UsiGoTimeLimit) -> (r: UsiGo)
        ensures
            r == (if self.is_ponder() { UsiGo::Ponder(l) } else { UsiGo::Go(l) }),
    {
        if self.ponder { UsiGo::Ponder(l) } else { UsiGo::Go(l) }
    }
}

/// The message of a repeated time parameter of `go`.
pub open spec fn go_dup_message() -> Seq<char> {
    "The input form of the go command is invalid. (Duplicate parameters)"@
}

/// The message of a time parameter of `go` without its value.
pub open spec fn go_noval_message() -> Seq<char> {
    "The input form of the go command is invalid. (There is no value for item)"@
}

/// The message of a value that is not a number.
pub open spec fn number_message() -> Seq<char> {
    "Failed parse string to integer."@
}

/// The message of a time parameter of `go` without its partner.
pub open spec fn go_pair_message() -> Seq<char> {
    "The input form of the go command is invalid. (Insufficient parameters)"@
}

/// The message of an unknown parameter of `go`.
pub open spec fn go_unknown_message() -> Seq<char> {
    "The input form of the go command is invalid. (Unknown parameter)"@
}

/// Reading the time parameters of `go` from token `i`, with the remaining
/// times (sente's, gote's) and byoyomi or increments found so far:
/// `btime a wtime b` (or `wtime b btime a`), `binc a winc b` (either order),
/// `byoyomi n`; each at most once, byoyomi and increments excluding each other.
pub open spec fn go_scan(ps: Seq<Seq<char>>, i: int, limit: Option<(u32, u32)>, byori: Option<UsiGoByoyomiOrInc>)
    -> Result<(Option<(u32, u32)>, Option<UsiGoByoyomiOrInc>), Seq<char>>
    decreases ps.len() - i,
{
    if i < 0 || i >= ps.len() {
        Ok((limit, byori))
    } else {
        let p = ps[i];
        if p == "btime"@ || p == "wtime"@ || p == "binc"@ || p == "winc"@ {
            let time = p == "btime"@ || p == "wtime"@;
            let first = p == "btime"@ || p == "binc"@;
            let partner = if p == "btime"@ { "wtime"@ } else if p == "wtime"@ { "btime"@ } else if p == "binc"@ { "winc"@ } else { "binc"@ };
            if (time && limit is Some) || (!time && byori is Some) {
                Err(go_dup_message())
            } else if i + 1 >= ps.len() {
                Err(go_noval_message())
            } else {
                match u32_text(ps[i + 1]) {
                    None => Err(number_message()),
                    Some(a) => if i + 2 >= ps.len() || ps[i + 2] != partner {
                        Err(go_pair_message())
                    } else if i + 3 >= ps.len() {
                        Err(go_noval_message())
                    } else {
                        match u32_text(ps[i + 3]) {
                            None => Err(number_message()),
                            Some(b) => {
                                let pair = if first { (a, b) } else { (b, a) };
                                if time {
                                    go_scan(ps, i + 4, Some(pair), byori)
                                } else {
                                    go_scan(ps, i + 4, limit, Some(UsiGoByoyomiOrInc::Inc(pair.0, pair.1)))
                                }
                            },
                        }
                    },
                }
            }
        } else if p == "byoyomi"@ {
            if byori is Some {
                Err(go_dup_message())
            } else if i + 1 >= ps.len() {
                Err(go_noval_message())
            } else {
                match u32_text(ps[i + 1]) {
                    None => Err(number_message()),
                    Some(n) => go_scan(ps, i + 2, limit, Some(UsiGoByoyomiOrInc::Byoyomi(n))),
                }
            }
        } else {
            Err(go_unknown_message())
        }
    }
}

/// The limit the time parameters found give.
pub open spec fn go_limit(limit: Option<(u32, u32)>, byori: Option<UsiGoByoyomiOrInc>) -> UsiGoTimeLimit {
    match limit {
        None => match byori {
            None => UsiGoTimeLimit::NoLimit,
            Some(b) => UsiGoTimeLimit::Limit(None, Some(b)),
        },
        Some(l) => UsiGoTimeLimit::Limit(Some(l), byori),
    }
}

/// Reading the parameters of `go`: nothing; `mate` with `infinite`, a time
/// or nothing else; `ponder` alone or before the limits; `infinite` alone;
/// or the time parameters.
pub open spec fn go_parse(ps: Seq<Seq<char>>) -> Result<UsiGo, Seq<char>> {
    if ps.len() == 0 {
        Ok(UsiGo::Go(UsiGoTimeLimit::NoLimit))
    } else if ps[0] == "mate"@ && ps.len() == 2 {
        if ps[1] == "infinite"@ {
            Ok(UsiGo::Mate(UsiGoMateTimeLimit::Infinite))
        } else {
            match u32_text(ps[1]) {
                Some(n) => Ok(UsiGo::Mate(UsiGoMateTimeLimit::Limit(n))),
                None => Err(number_message()),
            }
        }
    } else if ps[0] == "mate"@ {
        Ok(UsiGo::Mate(UsiGoMateTimeLimit::NoLimit))
    } else if ps[0] == "ponder"@ && ps.len() == 1 {
        Ok(UsiGo::Ponder(UsiGoTimeLimit::NoLimit))
    } else {
        let ponder = ps[0] == "ponder"@;
        let qs = if ponder { ps.subrange(1, ps.len() as int) } else { ps };
        let wrap = |l: UsiGoTimeLimit| if ponder { UsiGo::Ponder(l) } else { UsiGo::Go(l) };
        if qs[0] == "infinite"@ {
            if qs.len() == 1 { Ok(wrap(UsiGoTimeLimit::Infinite)) } else { Err(position_format_message()) }
        } else {
            match go_scan(qs, 0, None, None) {
                Err(m) => Err(m),
                Ok((limit, byori)) => Ok(wrap(go_limit(limit, byori))),
            }
        }
    }
}

/// A syntax error with message `m`.
fn syntax_error(m: &str) -> (e: TypeConvertError)
    ensures
        e matches TypeConvertError::SyntaxError(x) && x@ == m@,
{
    TypeConvertError::SyntaxError(String::from_str(m))
}

/// Parser of the parameters of the `go` command.
pub struct GoParser {}

impl GoParser {
    /// A parser.
    pub fn new() -> (r: GoParser)
        ensures
            r == (GoParser {}),
    {
        GoParser {}
    }

    /// The search the parameters of a `go` command ask for.
    pub fn parse(&self, params: &[&str]) -> (r: Result<UsiGo, TypeConvertError>)
        ensures
            match go_parse(params_view(params@)) {
                Ok(g) => r == Ok::<UsiGo, TypeConvertError>(g),
                Err(m) => r matches Err(TypeConvertError::SyntaxError(x)) && x@ == m,
            },
    {
        let ghost pv = params_view(params@);
        let n = params.len();
        if n == 0 {
            return Ok(UsiGo::Go(UsiGoTimeLimit::NoLimit));
        }
        proof {
            assert(pv[0] == params@[0]@);
        }
        let is_mate = str_eq(params[0], "mate");
        if is_mate && n == 2 {
            proof {
                assert(pv[1] == params@[1]@);
            }
            if str_eq(params[1], "infinite") {
                return Ok(UsiGo::Mate(UsiGoMateTimeLimit::Infinite));
            }
            return match parse_u32(params[1]) {
                Some(v) => Ok(UsiGo::Mate(UsiGoMateTimeLimit::Limit(v))),
                None => Err(syntax_error("Failed parse string to integer.")),
            };
        }
        if is_mate {
            return Ok(UsiGo::Mate(UsiGoMateTimeLimit::NoLimit));
        }
        let ponder = str_eq(params[0], "ponder");
        if ponder && n == 1 {
            return Ok(UsiGo::Ponder(UsiGoTimeLimit::NoLimit));
        }
        let f = UsiGoCreator::new(ponder);
        let base: usize = if ponder { 1 } else { 0 };
        let ghost qs = if ponder { pv.subrange(1, pv.len() as int) } else { pv };
        proof {
            assert(qs.len() == n - base);
            assert forall|k: int| 0 <= k < qs.len() implies #[trigger] qs[k] == params@[base + k]@ by {}
        }
        if str_eq(params[base], "infinite") {
            if n - base == 1 {
                return Ok(f.create(UsiGoTimeLimit::Infinite));
            } else {
                return Err(syntax_error("The format of the position command input is invalid."));
            }
        }
        let ghost whole = go_scan(qs, 0, None, None);
        let ghost outcome = match whole {
            Err(m) => Err::<UsiGo, Seq<char>>(m),
            Ok((l, b)) => Ok(if ponder { UsiGo::Ponder(go_limit(l, b)) } else { UsiGo::Go(go_limit(l, b)) }),
        };
        proof {
            assert(go_parse(pv) == outcome);
        }
        let mut i: usize = base;
        let mut limit: Option<(u32, u32)> = None;
        let mut byori: Option<UsiGoByoyomiOrInc> = None;
        while i < n
            invariant
                base <= i <= n,
                n == params@.len(),
                qs.len() == n - base,
                forall|k: int| 0 <= k < qs.len() ==> #[trigger] qs[k] == params@[base + k]@,
                go_scan(qs, i - base, limit, byori) == whole,
                go_parse(pv) == outcome,
                pv == params_view(params@),
                f.is_ponder() == ponder,
                outcome == match whole {
                    Err(m) => Err::<UsiGo, Seq<char>>(m),
                    Ok((l, b)) => Ok(if ponder { UsiGo::Ponder(go_limit(l, b)) } else { UsiGo::Go(go_limit(l, b)) }),
                },
            decreases n - i,
        {
            let ghost j = i - base;
            let p = params[i];
            let is_btime = str_eq(p, "btime");
            let is_wtime = str_eq(p, "wtime");
            let is_binc = str_eq(p, "binc");
            let is_winc = str_eq(p, "winc");
            proof {
                assert(qs[j] == p@);
            }
            if is_btime || is_wtime || is_binc || is_winc {
                let time = is_btime || is_wtime;
                let first = is_btime || is_binc;
                if (time && limit.is_some()) || (!time && byori.is_some()) {
                    return Err(syntax_error("The input form of the go command is invalid. (Duplicate parameters)"));
                }
                if i + 1 >= n {
                    return Err(syntax_error("The input form of the go command is invalid. (There is no value for item)"));
                }
                proof {
                    assert(qs[j + 1] == params@[i + 1]@);
                }
                let a = match parse_u32(params[i + 1]) {
                    Some(a) => a,
                    None => { return Err(syntax_error("Failed parse string to integer.")); },
                };
                let partner = if is_btime { "wtime" } else if is_wtime { "btime" } else if is_binc { "winc" } else { "binc" };
                if i + 2 >= n {
                    return Err(syntax_error("The input form of the go command is invalid. (Insufficient parameters)"));
                }
                proof {
                    assert(qs[j + 2] == params@[i + 2]@);
                }
                if !str_eq(params[i + 2], partner) {
                    return Err(syntax_error("The input form of the go command is invalid. (Insufficient parameters)"));
                }
                if i + 3 >= n {
                    return Err(syntax_error("The input form of the go command is invalid. (There is no value for item)"));
                }
                proof {
                    assert(qs[j + 3] == params@[i + 3]@);
                }
                let b = match parse_u32(params[i + 3]) {
                    Some(b) => b,
                    None => { return Err(syntax_error("Failed parse string to integer.")); },
                };
                let pair = if first { (a, b) } else { (b, a) };
                if time {
                    limit = Some(pair);
                } else {
                    byori = Some(UsiGoByoyomiOrInc::Inc(pair.0, pair.1));
                }
                i = i + 4;
            } else if str_eq(p, "byoyomi") {
                if byori.is_some() {
                    return Err(syntax_error("The input form of the go command is invalid. (Duplicate parameters)"));
                }
                if i + 1 >= n {
                    return Err(syntax_error("The input form of the go command is invalid. (There is no value for item)"));
                }
                proof {
                    assert(qs[j + 1] == params@[i + 1]@);
                }
                let v = match parse_u32(params[i + 1]) {
                    Some(v) => v,
                    None => { return Err(syntax_error("Failed parse string to integer.")); },
                };
                byori = Some(UsiGoByoyomiOrInc::Byoyomi(v));
                i = i + 2;
            } else {
                return Err(syntax_error("The input form of the go command is invalid. (Unknown parameter)"));
            }
        }
        let l = match limit {
            None => match byori {
                None => UsiGoTimeLimit::NoLimit,
                Some(b) => UsiGoTimeLimit::Limit(None, Some(b)),
            },
            Some(l) => UsiGoTimeLimit::Limit(Some(l), byori),
        };
        Ok(f.create(l))
    }
}

/// `n` in decimal with a `-` when negative.
pub open spec fn signed_decimal(n: int) -> Seq<char> {
    if n < 0 { seq!['-'] + decimal((-n) as nat) } else { decimal(n as nat) }
}

/// Appends `n` in decimal, with a `-` when negative.
pub fn push_signed(s: &mut String, n: i64)
    ensures
        final(s)@ == old(s)@ + signed_decimal(n as int),
{
    if n < 0 {
        let ghost s0 = s@;
        string_push(s, '-');
        let u: u64 = ((-(n + 1)) as u64) + 1;
        push_decimal(s, u);
        proof {
            assert(s@ =~= s0 + signed_decimal(n as int));
        }
    } else {
        push_decimal(s, n as u64);
    }
}

/// Appends `t` and `n` in decimal.
fn push_text_number(s: &mut String, t: &str, n: u64)
    ensures
        final(s)@ == old(s)@ + t@ + decimal(n as nat),
{
    s.append(t);
    push_decimal(s, n);
}

/// A failure to write a USI command, as a spec value: its kind (0 an invalid
/// state, 1 an invalid `info` command, 2 a row that cannot be written,
/// 3 an aborted search, 4 an aborted move), its message and its row.
pub type OutputFault = (int, Seq<char>, u32);

/// Whether `e` is the error `f` describes.
pub open spec fn output_fault_is(e: UsiOutputCreateError, f: OutputFault) -> bool {
    match e {
        UsiOutputCreateError::InvalidStateError(m) => f.0 == 0 && m@ == f.1,
        UsiOutputCreateError::InvalidInfoCommand(m) => f.0 == 1 && m@ == f.1,
        UsiOutputCreateError::ConvertError(ToMoveStringConvertError::CharConvert(DanConvertError(n))) => f.0 == 2 && n == f.2,
        UsiOutputCreateError::AbortedError => f.0 == 3,
        UsiOutputCreateError::ConvertError(ToMoveStringConvertError::AbortedError) => f.0 == 4,
        UsiOutputCreateError::ValidationError(_) => false,
    }
}

/// The text of a score.
pub open spec fn score_text(sc: UsiScore) -> Seq<char> {
    match sc {
        UsiScore::Cp(cp) => "score cp "@ + signed_decimal(cp as int),
        UsiScore::CpUpper(cp) => "score cp "@ + signed_decimal(cp as int) + " upperbound"@,
        UsiScore::CpLower(cp) => "score cp "@ + signed_decimal(cp as int) + " lowerbound"@,
        UsiScore::Mate(UsiScoreMate::Num(n)) => "score mate "@ + signed_decimal(n as int),
        UsiScore::Mate(UsiScoreMate::Plus) => "score mate +"@,
        UsiScore::Mate(UsiScoreMate::Minus) => "score mate -"@,
        UsiScore::MateUpper(n) => "score mate "@ + signed_decimal(n as int) + " upperbound"@,
        UsiScore::MateLower(n) => "score mate "@ + signed_decimal(n as int) + " lowerbound"@,
    }
}

/// The text of an `info` item: its name and value; a `pv` must not be empty
/// (reported as `checkmate`) and its moves must lie on the board (reported
/// as `pv`); a `curmove` whose row cannot be written gives that row.
pub open spec fn info_text(c: UsiInfoSubCommand) -> Result<Seq<char>, OutputFault> {
    match c {
        UsiInfoSubCommand::Depth(d) => Ok("depth "@ + decimal(d as nat)),
        UsiInfoSubCommand::SelDepth(d) => Ok("seldepth "@ + decimal(d as nat)),
        UsiInfoSubCommand::Time(t) => Ok("time "@ + decimal(t as nat)),
        UsiInfoSubCommand::Nodes(n) => Ok("nodes "@ + decimal(n as nat)),
        UsiInfoSubCommand::Pv(v) => if v.len() < 1 {
            Err((0, "checkmate"@, 0u32))
        } else if !all_valid(v@) {
            Err((0, "pv"@, 0u32))
        } else {
            match moves_text(v@) {
                Ok(t) => Ok("pv "@ + t),
                Err(n) => Err((2, Seq::<char>::empty(), n)),
            }
        },
        UsiInfoSubCommand::MultiPv(n) => Ok("multipv "@ + decimal(n as nat)),
        UsiInfoSubCommand::Score(sc) => Ok(score_text(sc)),
        UsiInfoSubCommand::CurMove(m) => match move_text(m) {
            Ok(t) => Ok("curmove "@ + t),
            Err(n) => Err((2, Seq::<char>::empty(), n)),
        },
        UsiInfoSubCommand::Hashfull(v) => Ok("hashfull "@ + decimal(v as nat)),
        UsiInfoSubCommand::Nps(v) => Ok("nps "@ + decimal(v as nat)),
        UsiInfoSubCommand::Str(s) => Ok("string "@ + s@),
    }
}

/// The text of an `info` item, or the error the fault gives.
fn info_item_text(c: &UsiInfoSubCommand) -> (r: Result<String, UsiOutputCreateError>)
    requires
        *c matches UsiInfoSubCommand::CurMove(m) ==> move_writable(m),
    ensures
        match info_text(*c) {
            Ok(t) => r matches Ok(s) && s@ == t,
            Err(f) => r matches Err(e) && output_fault_is(e, f),
        },
{
    let mut s = String::new();
    match c {
        UsiInfoSubCommand::Depth(d) => push_text_number(&mut s, "depth ", *d as u64),
        UsiInfoSubCommand::SelDepth(d) => push_text_number(&mut s, "seldepth ", *d as u64),
        UsiInfoSubCommand::Time(t) => push_text_number(&mut s, "time ", *t),
        UsiInfoSubCommand::Nodes(n) => push_text_number(&mut s, "nodes ", *n),
        UsiInfoSubCommand::Pv(v) => {
            if v.len() < 1 {
                return Err(UsiOutputCreateError::InvalidStateError(String::from_str("checkmate")));
            }
            match valid_moves_text(v) {
                Some(t) => {
                    s.append("pv ");
                    push_chars(&mut s, &t);
                },
                None => {
                    return Err(UsiOutputCreateError::InvalidStateError(String::from_str("pv")));
                },
            }
        },
        UsiInfoSubCommand::MultiPv(n) => push_text_number(&mut s, "multipv ", *n as u64),
        UsiInfoSubCommand::Score(sc) => {
            match sc {
                UsiScore::Cp(cp) => { s.append("score cp "); push_signed(&mut s, *cp); },
                UsiScore::CpUpper(cp) => { s.append("score cp "); push_signed(&mut s, *cp); s.append(" upperbound"); },
                UsiScore::CpLower(cp) => { s.append("score cp "); push_signed(&mut s, *cp); s.append(" lowerbound"); },
                UsiScore::Mate(UsiScoreMate::Num(n)) => { s.append("score mate "); push_signed(&mut s, *n); },
                UsiScore::Mate(UsiScoreMate::Plus) => { s.append("score mate +"); },
                UsiScore::Mate(UsiScoreMate::Minus) => { s.append("score mate -"); },
                UsiScore::MateUpper(n) => { s.append("score mate "); push_signed(&mut s, *n); s.append(" upperbound"); },
                UsiScore::MateLower(n) => { s.append("score mate "); push_signed(&mut s, *n); s.append(" lowerbound"); },
            }
        },
        UsiInfoSubCommand::CurMove(m) => {
            match move_to_string(m) {
                Ok(t) => {
                    s.append("curmove ");
                    push_chars(&mut s, &t);
                },
                Err(e) => {
                    return Err(UsiOutputCreateError::ConvertError(e));
                },
            }
        },
        UsiInfoSubCommand::Hashfull(v) => push_text_number(&mut s, "hashfull ", *v),
        UsiInfoSubCommand::Nps(v) => push_text_number(&mut s, "nps ", *v),
        UsiInfoSubCommand::Str(t) => {
            s.append("string ");
            push_chars(&mut s, t);
        },
    }
    proof {
        assert(s@ =~= info_text(*c)->Ok_0);
    }
    Ok(s)
}

impl ToUsiCommand<String, UsiOutputCreateError> for UsiInfoSubCommand {
    /// A `curmove` can be written without failing on a row of 0.
    open spec fn to_usi_command_requires(&self) -> bool {
        *self matches UsiInfoSubCommand::CurMove(m) ==> move_writable(m)
    }

    /// The text `info_text` gives, or the error of its fault.
    open spec fn to_usi_command_result(&self, r: Result<String, UsiOutputCreateError>) -> bool {
        match info_text(*self) {
            Ok(t) => r matches Ok(s) && s@ == t,
            Err(f) => r matches Err(e) && output_fault_is(e, f),
        }
    }

    fn to_usi_command(&self) -> (r: Result<String, UsiOutputCreateError>) {
        info_item_text(self)
    }
}

/// The texts `ts` joined by spaces.
pub open spec fn join_spaces(ts: Seq<Seq<char>>) -> Seq<char>
    decreases ts.len(),
{
    if ts.len() == 0 {
        Seq::<char>::empty()
    } else if ts.len() == 1 {
        ts[0]
    } else {
        join_spaces(ts.drop_last()).push(' ') + ts.last()
    }
}

/// Appends `t` to `s`, which holds the texts `ts` joined by spaces.
fn push_joined(s: &mut String, t: &String, first: bool, Ghost(ts): Ghost<Seq<Seq<char>>>)
    requires
        old(s)@ == join_spaces(ts),
        first == (ts.len() == 0),
    ensures
        final(s)@ == join_spaces(ts.push(t@)),
{
    if !first {
        string_push(s, ' ');
    }
    push_chars(s, t);
    proof {
        assert(ts.push(t@).drop_last() =~= ts);
        if ts.len() == 0 {
            assert(s@ =~= t@);
        }
    }
}

/// The option type as `option` writes it.
pub open spec fn vars_text(v: Seq<String>) -> Seq<Seq<char>> {
    Seq::new(v.len(), |i: int| "var "@ + v[i]@)
}

/// The text of an option type: its kind and default and, for a spin, its
/// bounds, for a combo, its choices; an empty default string is written
/// `<empty>`; a combo with a default and no choice is an invalid state.
pub open spec fn option_text(o: UsiOptType) -> Result<Seq<char>, OutputFault> {
    match o {
        UsiOptType::Check(Some(b)) => Ok(if b { "check default true"@ } else { "check default false"@ }),
        UsiOptType::Check(None) => Ok("check"@),
        UsiOptType::Spin(min, max, Some(d)) => Ok("spin default "@ + signed_decimal(d as int) + " min "@
            + signed_decimal(min as int) + " max "@ + signed_decimal(max as int)),
        UsiOptType::Spin(min, max, None) => Ok("spin min "@ + signed_decimal(min as int) + " max "@ + signed_decimal(max as int)),
        UsiOptType::Combo(Some(d), v) => if v.len() < 1 {
            Err((0, "There is no selection item of combo"@, 0u32))
        } else {
            Ok("combo default "@ + d@ + seq![' '] + join_spaces(vars_text(v@)))
        },
        UsiOptType::Combo(None, v) => Ok("combo "@ + join_spaces(vars_text(v@))),
        UsiOptType::Button => Ok("button"@),
        UsiOptType::String(Some(s)) => Ok(if s@.len() == 0 { "string default <empty>"@ } else { "string default "@ + s@ }),
        UsiOptType::String(None) => Ok("string"@),
        UsiOptType::FileName(Some(s)) => Ok(if s@.len() == 0 { "filename default <empty>"@ } else { "filename default "@ + s@ }),
        UsiOptType::FileName(None) => Ok("filename"@),
    }
}

/// The choices of a combo, each as `var <choice>`, joined by spaces.
fn push_vars(s: &mut String, v: &Vec<String>)
    ensures
        final(s)@ == old(s)@ + join_spaces(vars_text(v@)),
{
    let ghost s0 = s@;
    let mut t = String::new();
    let mut i: usize = 0;
    proof {
        assert(vars_text(v@).subrange(0, 0) =~= Seq::<Seq<char>>::empty());
    }
    while i < v.len()
        invariant
            i <= v.len(),
            t@ == join_spaces(vars_text(v@).subrange(0, i as int)),
        decreases v.len() - i,
    {
        let mut item = String::from_str("var ");
        push_chars(&mut item, &v[i]);
        proof {
            assert(vars_text(v@).subrange(0, i as int).push(item@) =~= vars_text(v@).subrange(0, i as int + 1));
        }
        push_joined(&mut t, &item, i == 0, Ghost(vars_text(v@).subrange(0, i as int)));
        i = i + 1;
    }
    proof {
        assert(vars_text(v@).subrange(0, v.len() as int) =~= vars_text(v@));
    }
    push_chars(s, &t);
}

impl ToUsiCommand<String, UsiOutputCreateError> for UsiOptType {
    /// Any option type can be written.
    open spec fn to_usi_command_requires(&self) -> bool {
        true
    }

    /// The text `option_text` gives, or the error of its fault.
    open spec fn to_usi_command_result(&self, r: Result<String, UsiOutputCreateError>) -> bool {
        match option_text(*self) {
            Ok(t) => r matches Ok(s) && s@ == t,
            Err(f) => r matches Err(e) && output_fault_is(e, f),
        }
    }

    fn to_usi_command(&self) -> (r: Result<String, UsiOutputCreateError>) {
        let mut s = String::new();
        match self {
            UsiOptType::Check(Some(b)) => {
                if *b { s.append("check default true"); } else { s.append("check default false"); }
            },
            UsiOptType::Check(None) => s.append("check"),
            UsiOptType::Spin(min, max, Some(d)) => {
                s.append("spin default ");
                push_signed(&mut s, *d);
                s.append(" min ");
                push_signed(&mut s, *min);
                s.append(" max ");
                push_signed(&mut s, *max);
            },
            UsiOptType::Spin(min, max, None) => {
                s.append("spin min ");
                push_signed(&mut s, *min);
                s.append(" max ");
                push_signed(&mut s, *max);
            },
            UsiOptType::Combo(Some(d), v) => {
                if v.len() < 1 {
                    return Err(UsiOutputCreateError::InvalidStateError(String::from_str("There is no selection item of combo")));
                }
                s.append("combo default ");
                push_chars(&mut s, d);
                string_push(&mut s, ' ');
                push_vars(&mut s, v);
            },
            UsiOptType::Combo(None, v) => {
                s.append("combo ");
                push_vars(&mut s, v);
            },
            UsiOptType::Button => s.append("button"),
            UsiOptType::String(Some(t)) => {
                if t.unicode_len() == 0 {
                    s.append("string default <empty>");
                } else {
                    s.append("string default ");
                    push_chars(&mut s, t);
                }
            },
            UsiOptType::String(None) => s.append("string"),
            UsiOptType::FileName(Some(t)) => {
                if t.unicode_len() == 0 {
                    s.append("filename default <empty>");
                } else {
                    s.append("filename default ");
                    push_chars(&mut s, t);
                }
            },
            UsiOptType::FileName(None) => s.append("filename"),
        }
        proof {
            assert(s@ =~= option_text(*self)->Ok_0);
        }
        Ok(s)
    }
}

/// Which pass of the `info` list an item goes in: `pv` last, `multipv`
/// before it, everything else first.
pub open spec fn info_group(c: UsiInfoSubCommand) -> int {
    match c {
        UsiInfoSubCommand::Pv(_) => 2,
        UsiInfoSubCommand::MultiPv(_) => 1,
        _ => 0,
    }
}

/// The places among the first `n` items of `v` whose group is `g`, in order.
pub open spec fn group_places(v: Seq<UsiInfoSubCommand>, g: int, n: int) -> Seq<int>
    decreases n,
{
    if n <= 0 {
        Seq::<int>::empty()
    } else if info_group(v[n - 1]) == g {
        group_places(v, g, n - 1).push(n - 1)
    } else {
        group_places(v, g, n - 1)
    }
}

/// The items of `v` in the order the list writes them: other items, then `multipv`, then `pv`, each in order.
pub open spec fn info_order(v: Seq<UsiInfoSubCommand>) -> Seq<UsiInfoSubCommand> {
    let ps = group_places(v, 0, v.len() as int) + group_places(v, 1, v.len() as int) + group_places(v, 2, v.len() as int);
    Seq::new(ps.len(), |t: int| v[ps[t]])
}

/// The number of items written in the first pass.
pub open spec fn info_first_pass(v: Seq<UsiInfoSubCommand>) -> int {
    group_places(v, 0, v.len() as int).len() as int
}

/// The message of a repeated `info` item.
pub open spec fn info_dup_message() -> Seq<char> {
    "The same subcommand is specified more than once"@
}

/// Writing the ordered items `cs` from `i` on, with the kinds `seen` so far
/// and the last kind of the first pass `prev`: in the first `n` items a
/// `pv` and a `string` exclude each other, `seldepth` follows `depth`,
/// `pv` and `curmove` must be valid; no kind comes twice; at the end a
/// `multipv` needs a `pv`. Gives the texts of the items from `i` on.
pub open spec fn info_scan(cs: Seq<UsiInfoSubCommand>, n: int, i: int, seen: Set<UsiInfoSubCommandKind>,
    prev: Option<UsiInfoSubCommandKind>) -> Result<Seq<Seq<char>>, OutputFault>
    decreases cs.len() - i,
{
    if i < 0 || i >= cs.len() {
        if seen.contains(UsiInfoSubCommandKind::MultiPv) && !seen.contains(UsiInfoSubCommandKind::Pv) {
            Err((1, "multipv must be specified along with pv"@, 0u32))
        } else {
            Ok(Seq::<Seq<char>>::empty())
        }
    } else {
        let c = cs[i];
        let k = info_kind(c);
        if i < n && k == UsiInfoSubCommandKind::Pv && seen.contains(UsiInfoSubCommandKind::Str) {
            Err((1, "specified pv and str with together"@, 0u32))
        } else if i < n && k == UsiInfoSubCommandKind::Str && seen.contains(UsiInfoSubCommandKind::Pv) {
            Err((1, "specified pv and str with together"@, 0u32))
        } else if i < n && k == UsiInfoSubCommandKind::SelDepth && prev != Some(UsiInfoSubCommandKind::Depth) {
            Err((1, "seldepth must be specified immediately after depth"@, 0u32))
        } else if i < n && k == UsiInfoSubCommandKind::Pv && !crate::command::info_item_valid(c) {
            Err((1, "parameter of pv is invalid"@, 0u32))
        } else if i < n && k == UsiInfoSubCommandKind::CurMove && !crate::command::info_item_valid(c) {
            Err((1, "parameter of curmove is invalid"@, 0u32))
        } else if seen.contains(k) {
            Err((1, info_dup_message(), 0u32))
        } else {
            match info_text(c) {
                Err(f) => Err(f),
                Ok(t) => match info_scan(cs, n, i + 1, seen.insert(k), if i < n { Some(k) } else { prev }) {
                    Err(f) => Err(f),
                    Ok(rest) => Ok(seq![t] + rest),
                },
            }
        }
    }
}

/// The places of the items of group `g`, in order.
fn group_places_exec(v: &Vec<UsiInfoSubCommand>, g: u8, out: &mut Vec<usize>)
    requires
        g < 3,
    ensures
        final(out)@.len() == old(out)@.len() + group_places(v@, g as int, v.len() as int).len(),
        forall|t: int| 0 <= t < old(out)@.len() ==> #[trigger] final(out)@[t] == old(out)@[t],
        forall|t: int| 0 <= t < group_places(v@, g as int, v.len() as int).len() ==>
            final(out)@[old(out)@.len() + t] as int == #[trigger] group_places(v@, g as int, v.len() as int)[t],
{
    let ghost o0 = out@;
    let mut j: usize = 0;
    while j < v.len()
        invariant
            j <= v.len(),
            g < 3,
            out@.len() == o0.len() + group_places(v@, g as int, j as int).len(),
            forall|t: int| 0 <= t < o0.len() ==> #[trigger] out@[t] == o0[t],
            forall|t: int| 0 <= t < group_places(v@, g as int, j as int).len() ==>
                out@[o0.len() + t] as int == #[trigger] group_places(v@, g as int, j as int)[t],
        decreases v.len() - j,
    {
        let grp: u8 = match &v[j] {
            UsiInfoSubCommand::Pv(_) => 2,
            UsiInfoSubCommand::MultiPv(_) => 1,
            _ => 0,
        };
        if grp == g {
            out.push(j);
        }
        j = j + 1;
    }
}

impl ToUsiCommand<String, UsiOutputCreateError> for Vec<UsiInfoSubCommand> {
    /// Every `curmove` can be written without failing on a row of 0.
    open spec fn to_usi_command_requires(&self) -> bool {
        forall|i: int| 0 <= i < self.len() ==> (#[trigger] self@[i] matches UsiInfoSubCommand::CurMove(m) ==> move_writable(m))
    }

    /// The texts `info_scan` gives for the items in writing order, joined by
    /// spaces, or the error of the first fault.
    open spec fn to_usi_command_result(&self, r: Result<String, UsiOutputCreateError>) -> bool {
        match info_scan(info_order(self@), info_first_pass(self@), 0, Set::empty(), None) {
            Ok(ts) => r matches Ok(s) && s@ == join_spaces(ts),
            Err(f) => r matches Err(e) && output_fault_is(e, f),
        }
    }

    fn to_usi_command(&self) -> (r: Result<String, UsiOutputCreateError>) {
        let mut order: Vec<usize> = Vec::new();
        group_places_exec(self, 0, &mut order);
        let n0 = order.len();
        group_places_exec(self, 1, &mut order);
        group_places_exec(self, 2, &mut order);
        let ghost ps = group_places(self@, 0, self.len() as int) + group_places(self@, 1, self.len() as int)
            + group_places(self@, 2, self.len() as int);
        let ghost cs = info_order(self@);
        proof {
            lemma_group_places_range(self@, 0, self.len() as int);
            lemma_group_places_range(self@, 1, self.len() as int);
            lemma_group_places_range(self@, 2, self.len() as int);
            assert(order@.len() == ps.len());
            assert forall|t: int| 0 <= t < ps.len() implies #[trigger] order@[t] as int == ps[t] && 0 <= ps[t] < self.len() by {
            }
        }
        let ghost whole = info_scan(cs, n0 as int, 0, Set::empty(), None);
        let mut seen: u32 = 0;
        let mut prev: Option<UsiInfoSubCommandKind> = None;
        let mut out = String::new();
        let ghost mut done: Seq<Seq<char>> = Seq::empty();
        proof {
            assert forall|k: UsiInfoSubCommandKind| !mask_kinds(0).contains(k) by {
                lemma_mask_insert(0, 0, kind_bit_spec(k));
            }
            assert(mask_kinds(0) =~= Set::empty());
        }
        let mut i: usize = 0;
        while i < order.len()
            invariant
                i <= order.len(),
                order@.len() == cs.len(),
                n0 as int == info_first_pass(self@),
                cs == info_order(self@),
                forall|t: int| 0 <= t < order@.len() ==> (#[trigger] order@[t] as int) < self.len() && cs[t] == self@[order@[t] as int],
                forall|j: int| 0 <= j < self.len() ==> (#[trigger] self@[j] matches UsiInfoSubCommand::CurMove(m) ==> move_writable(m)),
                whole == info_scan(cs, n0 as int, 0, Set::empty(), None),
                out@ == join_spaces(done),
                (i == 0) == (done.len() == 0),
                match whole {
                    Ok(ts) => info_scan(cs, n0 as int, i as int, mask_kinds(seen), prev) matches Ok(rest) && ts == done + rest,
                    Err(f) => info_scan(cs, n0 as int, i as int, mask_kinds(seen), prev) == Err::<Seq<Seq<char>>, OutputFault>(f),
                },
            decreases order.len() - i,
        {
            let c = &self[order[i]];
            proof {
                assert(*c == cs[i as int]);
            }
            let k = c.get_kind();
            let kb = kind_bit(k);
            proof {
                lemma_mask_insert(seen, kb, 4);
                lemma_mask_insert(seen, kb, 10);
                lemma_mask_insert(seen, 4, kb);
                lemma_mask_insert(seen, 10, kb);
                lemma_mask_insert(seen, kb, kb);
            }
            let has_str = (seen & (1u32 << 10u32)) != 0;
            let has_pv = (seen & (1u32 << 4u32)) != 0;
            let has_k = (seen & (1u32 << kb)) != 0;
            if i < n0 {
                match c {
                    UsiInfoSubCommand::Pv(_) => {
                        if has_str {
                            return Err(UsiOutputCreateError::InvalidInfoCommand(String::from_str("specified pv and str with together")));
                        }
                    },
                    UsiInfoSubCommand::Str(_) => {
                        if has_pv {
                            return Err(UsiOutputCreateError::InvalidInfoCommand(String::from_str("specified pv and str with together")));
                        }
                    },
                    UsiInfoSubCommand::SelDepth(_) => {
                        if prev != Some(UsiInfoSubCommandKind::Depth) {
                            return Err(UsiOutputCreateError::InvalidInfoCommand(String::from_str(
                                "seldepth must be specified immediately after depth")));
                        }
                    },
                    _ => {},
                }
                match c {
                    UsiInfoSubCommand::Pv(_) => {
                        if !c.validate() {
                            return Err(UsiOutputCreateError::InvalidInfoCommand(String::from_str("parameter of pv is invalid")));
                        }
                    },
                    UsiInfoSubCommand::CurMove(_) => {
                        if !c.validate() {
                            return Err(UsiOutputCreateError::InvalidInfoCommand(String::from_str("parameter of curmove is invalid")));
                        }
                    },
                    _ => {},
                }
            }
            if has_k {
                return Err(UsiOutputCreateError::InvalidInfoCommand(String::from_str(
                    "The same subcommand is specified more than once")));
            }
            let t = match info_item_text(c) {
                Ok(t) => t,
                Err(e) => { return Err(e); },
            };
            proof {
                assert forall|j: UsiInfoSubCommandKind| mask_kinds(seen | (1u32 << kb)).contains(j) == mask_kinds(seen).insert(k).contains(j) by {
                    lemma_mask_insert(seen, kb, kind_bit_spec(j));
                }
                assert(mask_kinds(seen | (1u32 << kb)) =~= mask_kinds(seen).insert(k));
            }
            push_joined(&mut out, &t, i == 0, Ghost(done));
            proof {
                match whole {
                    Ok(ts) => {
                        let rest = info_scan(cs, n0 as int, i as int, mask_kinds(seen), prev)->Ok_0;
                        let rest2 = info_scan(cs, n0 as int, i as int + 1, mask_kinds(seen).insert(k),
                            if (i as int) < n0 { Some(k) } else { prev })->Ok_0;
                        assert(rest == seq![t@] + rest2);
                        assert(ts == done.push(t@) + rest2);
                    },
                    Err(_) => {},
                }
                done = done.push(t@);
            }
            seen = seen | (1u32 << kb);
            if i < n0 {
                prev = Some(k);
            }
            i = i + 1;
        }
        proof {
            lemma_mask_insert(seen, 5, 5);
            lemma_mask_insert(seen, 4, 4);
        }
        if (seen & (1u32 << 5u32)) != 0 && (seen & (1u32 << 4u32)) == 0 {
            return Err(UsiOutputCreateError::InvalidInfoCommand(String::from_str("multipv must be specified along with pv")));
        }
        proof {
            match whole {
                Ok(ts) => {
                    assert(ts =~= done + Seq::<Seq<char>>::empty());
                },
                Err(_) => {},
            }
        }
        Ok(out)
    }
}

/// Every place of a group lies in the list.
proof fn lemma_group_places_range(v: Seq<UsiInfoSubCommand>, g: int, n: int)
    requires
        n <= v.len(),
    ensures
        forall|t: int| 0 <= t < group_places(v, g, n).len() ==> 0 <= #[trigger] group_places(v, g, n)[t] < n,
    decreases n,
{
    if n > 0 {
        lemma_group_places_range(v, g, n - 1);
        let p = group_places(v, g, n - 1);
        if info_group(v[n - 1]) == g {
            assert forall|t: int| 0 <= t < p.len() + 1 implies 0 <= #[trigger] p.push(n - 1)[t] < n by {
                if t < p.len() {
                    assert(p.push(n - 1)[t] == p[t]);
                }
            }
        }
    }
}

/// The text of a best move, or its fault (an aborted search has none).
pub open spec fn best_text(bm: BestMove) -> Result<Seq<char>, OutputFault> {
    match bm {
        BestMove::Resign => Ok("resign"@),
        BestMove::Win => Ok("win"@),
        BestMove::Abort => Err((4, Seq::<char>::empty(), 0u32)),
        BestMove::Move(m, None) => match move_text(m) {
            Ok(t) => Ok(t),
            Err(n) => Err((2, Seq::<char>::empty(), n)),
        },
        BestMove::Move(m, Some(pm)) => match (move_text(m), move_text(pm)) {
            (Ok(t), Ok(u)) => Ok(t + " ponder "@ + u),
            (Err(n), _) => Err((2, Seq::<char>::empty(), n)),
            (Ok(_), Err(n)) => Err((2, Seq::<char>::empty(), n)),
        },
    }
}

/// The text of an answer to a mate search, or its fault.
pub open spec fn checkmate_text(c: CheckMate) -> Result<Seq<char>, OutputFault> {
    match c {
        CheckMate::Moves(v) => if v.len() < 1 || !all_valid(v@) {
            Err((0, "checkmate"@, 0u32))
        } else {
            match moves_text(v@) {
                Ok(t) => Ok(t),
                Err(n) => Err((2, Seq::<char>::empty(), n)),
            }
        },
        CheckMate::NotiImplemented => Ok("notimplemented"@),
        CheckMate::Timeout => Ok("timeout"@),
        CheckMate::Nomate => Ok("nomate"@),
        CheckMate::Abort => Err((3, Seq::<char>::empty(), 0u32)),
    }
}

/// The text of an `info` list, or its fault.
pub open spec fn info_list_text(v: Seq<UsiInfoSubCommand>) -> Result<Seq<char>, OutputFault> {
    match info_scan(info_order(v), info_first_pass(v), 0, Set::empty(), None) {
        Ok(ts) => Ok(join_spaces(ts)),
        Err(f) => Err(f),
    }
}

/// The lines a command is written as, or the fault that stops it.
pub open spec fn command_lines(c: UsiCommand) -> Result<Seq<Seq<char>>, OutputFault> {
    match c {
        UsiCommand::UsiOk => Ok(seq!["usiok"@]),
        UsiCommand::UsiId(name, author) => Ok(seq!["id name "@ + name@, "id author "@ + author@]),
        UsiCommand::UsiReadyOk => Ok(seq!["readyok"@]),
        UsiCommand::UsiBestMove(bm) => match best_text(bm) {
            Ok(t) => Ok(seq!["bestmove "@ + t]),
            Err(f) => Err(f),
        },
        UsiCommand::UsiInfo(v) => match info_list_text(v@) {
            Ok(t) => Ok(seq!["info "@ + t]),
            Err(f) => Err(f),
        },
        UsiCommand::UsiOption(name, o) => match option_text(o) {
            Ok(t) => Ok(seq!["option name "@ + name@ + " type "@ + t]),
            Err(f) => Err(f),
        },
        UsiCommand::UsiCheckMate(cm) => match checkmate_text(cm) {
            Ok(t) => Ok(seq!["checkmate "@ + t]),
            Err(f) => Err(f),
        },
    }
}

/// What a command needs to be written: its moves have no row of 0.
pub open spec fn command_writable(c: UsiCommand) -> bool {
    match c {
        UsiCommand::UsiBestMove(bm) => bm.to_sfen_requires(),
        UsiCommand::UsiInfo(v) => v.to_usi_command_requires(),
        _ => true,
    }
}

/// The characters of each line.
pub open spec fn lines_view(v: Seq<String>) -> Seq<Seq<char>> {
    Seq::new(v.len(), |i: int| v[i]@)
}

/// A one-line result made of `head` and `t`.
fn one_line(head: &str, t: &String) -> (r: Vec<String>)
    ensures
        lines_view(r@) == seq![head@ + t@],
{
    let mut s = String::from_str(head);
    push_chars(&mut s, t);
    let mut v: Vec<String> = Vec::new();
    v.push(s);
    proof {
        assert(lines_view(v@) =~= seq![head@ + t@]);
    }
    v
}

impl ToUsiCommand<Vec<String>, UsiOutputCreateError> for UsiCommand {
    /// The moves of the command have no row of 0.
    open spec fn to_usi_command_requires(&self) -> bool {
        command_writable(*self)
    }

    /// The lines `command_lines` gives, or the error of its fault.
    open spec fn to_usi_command_result(&self, r: Result<Vec<String>, UsiOutputCreateError>) -> bool {
        match command_lines(*self) {
            Ok(ls) => r matches Ok(v) && lines_view(v@) == ls,
            Err(f) => r matches Err(e) && output_fault_is(e, f),
        }
    }

    fn to_usi_command(&self) -> (r: Result<Vec<String>, UsiOutputCreateError>) {
        match self {
            UsiCommand::UsiOk => {
                let mut v: Vec<String> = Vec::new();
                v.push(String::from_str("usiok"));
                proof { assert(lines_view(v@) =~= seq!["usiok"@]); }
                Ok(v)
            },
            UsiCommand::UsiId(name, author) => {
                let mut a = String::from_str("id name ");
                push_chars(&mut a, name);
                let mut b = String::from_str("id author ");
                push_chars(&mut b, author);
                let mut v: Vec<String> = Vec::new();
                v.push(a);
                v.push(b);
                proof { assert(lines_view(v@) =~= seq!["id name "@ + name@, "id author "@ + author@]); }
                Ok(v)
            },
            UsiCommand::UsiReadyOk => {
                let mut v: Vec<String> = Vec::new();
                v.push(String::from_str("readyok"));
                proof { assert(lines_view(v@) =~= seq!["readyok"@]); }
                Ok(v)
            },
            UsiCommand::UsiBestMove(bm) => match bm.to_sfen() {
                Ok(t) => Ok(one_line("bestmove ", &t)),
                Err(e) => Err(UsiOutputCreateError::ConvertError(e)),
            },
            UsiCommand::UsiInfo(v) => match v.to_usi_command() {
                Ok(t) => Ok(one_line("info ", &t)),
                Err(e) => Err(e),
            },
            UsiCommand::UsiOption(name, o) => match o.to_usi_command() {
                Ok(t) => {
                    let mut s = String::from_str("option name ");
                    push_chars(&mut s, name);
                    s.append(" type ");
                    push_chars(&mut s, &t);
                    let mut v: Vec<String> = Vec::new();
                    v.push(s);
                    proof { assert(lines_view(v@) =~= seq!["option name "@ + name@ + " type "@ + t@]); }
                    Ok(v)
                },
                Err(e) => Err(e),
            },
            UsiCommand::UsiCheckMate(cm) => match cm.to_sfen() {
                Ok(t) => Ok(one_line("checkmate ", &t)),
                Err(e) => Err(e),
            },
        }
    }
}

impl<'a> TryFrom<&'a UsiCommand, UsiOutputCreateError> for UsiOutput {
    /// The moves of the command have no row of 0.
    open spec fn try_from_requires(cmd: &'a UsiCommand) -> bool {
        command_writable(*cmd)
    }

    /// The lines of the command, or the error of its fault.
    open spec fn try_from_result(cmd: &'a UsiCommand, r: Result<UsiOutput, UsiOutputCreateError>) -> bool {
        match command_lines(*cmd) {
            Ok(ls) => r matches Ok(UsiOutput::Command(v)) && lines_view(v@) == ls,
            Err(f) => r matches Err(e) && output_fault_is(e, f),
        }
    }

    fn try_from(cmd: &'a UsiCommand) -> (r: Result<UsiOutput, UsiOutputCreateError>) {
        match cmd.to_usi_command() {
            Ok(v) => Ok(UsiOutput::Command(v)),
            Err(e) => Err(e),
        }
    }
}

/// A piece's SFEN string reads back as the piece, and its first character is
/// neither a digit, a `/`, nor (unless the piece is promoted) a `+`.
proof fn lemma_koma_text(k: KomaKind)
    requires
        k != KomaKind::Blank,
    ensures
        koma_text(koma_sfen(k)) == Some(k),
        koma_sfen(k).len() == 1 || koma_sfen(k).len() == 2,
        koma_sfen(k).len() == 2 ==> koma_sfen(k)[0] == '+',
        koma_sfen(k).len() == 1 ==> koma_sfen(k)[0] != '+',
        koma_sfen(k)[0] != '/',
        koma_sfen(k)[0] != '0',
        file_digit(koma_sfen(k)[0]) is None,
{
    match k {
        KomaKind::SOu => {}, KomaKind::SHisha => {}, KomaKind::SKaku => {}, KomaKind::SKin => {},
        KomaKind::SGin => {}, KomaKind::SKei => {}, KomaKind::SKyou => {}, KomaKind::SFu => {},
        KomaKind::SHishaN => {}, KomaKind::SKakuN => {}, KomaKind::SGinN => {}, KomaKind::SKeiN => {},
        KomaKind::SKyouN => {}, KomaKind::SFuN => {},
        KomaKind::GOu => {}, KomaKind::GHisha => {}, KomaKind::GKaku => {}, KomaKind::GKin => {},
        KomaKind::GGin => {}, KomaKind::GKei => {}, KomaKind::GKyou => {}, KomaKind::GFu => {},
        KomaKind::GHishaN => {}, KomaKind::GKakuN => {}, KomaKind::GGinN => {}, KomaKind::GKeiN => {},
        KomaKind::GKyouN => {}, KomaKind::GFuN => {},
        KomaKind::Blank => {},
    }
}

/// A count of blanks from 1 to 9 is one digit that reads back as the count.
proof fn lemma_digit_text(n: int)
    requires
        1 <= n <= 9,
    ensures
        file_digit(digit_char(n)) == Some(n as u32),
        digit_char(n) != '/',
        digit_char(n) != '0',
{
}

/// Reading the text of a row from column `x - n` (the last `n` squares
/// before `x` being blank) fills row `y` with the row and stops after its last column.
proof fn lemma_row_scan(cs: Seq<char>, i: int, r: Seq<KomaKind>, x: int, n: int, y: int, g: Seq<Seq<KomaKind>>)
    requires
        0 <= n <= x <= 9,
        0 <= y < 9,
        0 <= i,
        r.len() == 9,
        g.len() == 9,
        g[y].len() == 9,
        i + row_sfen(r, x, n).len() <= cs.len(),
        forall|k: int| 0 <= k < row_sfen(r, x, n).len() ==> cs[i + k] == #[trigger] row_sfen(r, x, n)[k],
        forall|c: int| 0 <= c < x - n ==> #[trigger] g[y][c] == r[c],
        forall|c: int| x - n <= c < 9 ==> #[trigger] g[y][c] == KomaKind::Blank,
        forall|c: int| x - n <= c < x ==> #[trigger] r[c] == KomaKind::Blank,
    ensures
        banmen_scan(cs, i, x - n, y, g) == banmen_scan(cs, i + row_sfen(r, x, n).len(), 9, y, g.update(y, r)),
    decreases 9 - x,
{
    let t = row_sfen(r, x, n);
    if x >= 9 {
        if n > 0 {
            lemma_digit_text(n);
            assert(t == seq![digit_char(n)]);
            assert(t[0] == digit_char(n));
            assert(cs[i] == t[0]);
            assert(g.update(y, r) =~= g) by {
                assert(g[y] =~= r);
            }
        } else {
            assert(t.len() == 0);
            assert(g.update(y, r) =~= g) by {
                assert(g[y] =~= r);
            }
        }
    } else if r[x] == KomaKind::Blank {
        lemma_row_scan(cs, i, r, x + 1, n + 1, y, g);
    } else {
        let k = r[x];
        let head: Seq<char> = if n > 0 { seq![digit_char(n)] } else { Seq::<char>::empty() };
        let ks = koma_sfen(k);
        let rest = row_sfen(r, x + 1, 0);
        assert(t == head + ks + rest);
        lemma_koma_text(k);
        let j = i + head.len();
        if n > 0 {
            lemma_digit_text(n);
            assert(cs[i] == t[0]);
        }
        assert(banmen_scan(cs, i, x - n, y, g) == banmen_scan(cs, j, x, y, g));
        let g2 = g.update(y, g[y].update(x, k));
        assert(cs[j] == t[head.len() as int]);
        assert(t[head.len() as int] == ks[0]);
        if ks.len() == 2 {
            assert(cs[j + 1] == t[head.len() + 1int]);
            assert(seq!['+', cs[j + 1]] =~= ks);
        } else {
            assert(seq![cs[j]] =~= ks);
        }
        assert(banmen_scan(cs, j, x, y, g) == banmen_scan(cs, j + ks.len(), x + 1, y, g2));
        assert forall|kk: int| 0 <= kk < rest.len() implies cs[j + ks.len() + kk] == #[trigger] rest[kk] by {
            assert(t[head.len() + ks.len() + kk] == rest[kk]);
        }
        lemma_row_scan(cs, j + ks.len(), r, x + 1, 0, y, g2);
        assert(g2.update(y, r) =~= g.update(y, r));
    }
}

/// The rows of `gr` before `k`, the others blank.
pub open spec fn rows_upto(gr: Seq<Seq<KomaKind>>, k: int) -> Seq<Seq<KomaKind>> {
    Seq::new(9, |y: int| if y < k { gr[y] } else { Seq::new(9, |x: int| KomaKind::Blank) })
}

/// Reading the text of the first `k` rows from the start ends after them with those rows filled.
proof fn lemma_rows_scan(cs: Seq<char>, gr: Seq<Seq<KomaKind>>, k: int)
    requires
        1 <= k <= 9,
        gr.len() == 9,
        forall|y: int| 0 <= y < 9 ==> #[trigger] gr[y].len() == 9,
        rows_sfen(gr, k).len() <= cs.len(),
        forall|j: int| 0 <= j < rows_sfen(gr, k).len() ==> cs[j] == #[trigger] rows_sfen(gr, k)[j],
    ensures
        banmen_scan(cs, 0, 0, 0, blank_grid()) == banmen_scan(cs, rows_sfen(gr, k).len() as int, 9, k - 1, rows_upto(gr, k)),
    decreases k,
{
    let t = rows_sfen(gr, k);
    if k == 1 {
        assert(t == row_sfen(gr[0], 0, 0));
        assert(blank_grid() =~= rows_upto(gr, 0));
        lemma_row_scan(cs, 0, gr[0], 0, 0, 0, blank_grid());
        assert(blank_grid().update(0, gr[0]) =~= rows_upto(gr, 1));
    } else {
        let prev = rows_sfen(gr, k - 1);
        let row = row_sfen(gr[k - 1], 0, 0);
        assert(t == prev.push('/') + row);
        assert forall|j: int| 0 <= j < prev.len() implies cs[j] == #[trigger] prev[j] by {
            assert(t[j] == prev[j]);
        }
        lemma_rows_scan(cs, gr, k - 1);
        let p = prev.len() as int;
        assert(cs[p] == t[p]);
        assert(cs[p] == '/');
        assert(banmen_scan(cs, p, 9, k - 2, rows_upto(gr, k - 1)) == banmen_scan(cs, p + 1, 0, k - 1, rows_upto(gr, k - 1)));
        assert forall|kk: int| 0 <= kk < row.len() implies cs[p + 1 + kk] == #[trigger] row[kk] by {
            assert(t[p + 1 + kk] == row[kk]);
        }
        lemma_row_scan(cs, p + 1, gr[k - 1], 0, 0, k - 1, rows_upto(gr, k - 1));
        assert(rows_upto(gr, k - 1).update(k - 1, gr[k - 1]) =~= rows_upto(gr, k));
    }
}

/// Writing a board in SFEN and reading the text back gives the board.
pub proof fn law_banmen_sfen_roundtrip(b: Banmen)
    ensures
        banmen_scan(rows_sfen(banmen_grid(b.0), 9), 0, 0, 0, blank_grid()) == Ok::<Seq<Seq<KomaKind>>, (BanmenFault, Seq<char>)>(banmen_grid(b.0)),
{
    let gr = banmen_grid(b.0);
    let cs = rows_sfen(gr, 9);
    lemma_rows_scan(cs, gr, 9);
    assert(rows_upto(gr, 9) =~= gr);
}

/// Every character of a decimal numeral is a digit, and it reads back as
/// its number wherever it stands.
proof fn lemma_decimal_reads(cs: Seq<char>, i: int, n: nat)
    requires
        0 <= i,
        i + decimal(n).len() <= cs.len(),
        forall|k: int| 0 <= k < decimal(n).len() ==> cs[i + k] == #[trigger] decimal(n)[k],
    ensures
        decimal(n).len() >= 1,
        forall|k: int| 0 <= k < decimal(n).len() ==> #[trigger] digit_value(decimal(n)[k]) is Some,
        digits_value(cs, i, i + decimal(n).len()) == n,
    decreases n,
{
    let d = decimal(n);
    if n < 10 {
        assert(digit_value(digit_char(n as int)) == Some(n as int));
        assert(cs[i + 0] == d[0]);
        assert(digits_value(cs, i, i) == 0);
        assert(digits_value(cs, i, i + 1) == digits_value(cs, i, i) * 10 + digit_value(cs[i])->Some_0);
    } else {
        let h = decimal(n / 10);
        assert(d == h.push(digit_char((n % 10) as int)));
        assert forall|k: int| 0 <= k < h.len() implies cs[i + k] == #[trigger] h[k] by {
            assert(d[k] == h[k]);
        }
        lemma_decimal_reads(cs, i, n / 10);
        let j = i + d.len();
        assert(cs[j - 1] == d[d.len() - 1]);
        assert(digit_value(digit_char((n % 10) as int)) == Some((n % 10) as int));
        assert(j - 1 == i + h.len());
        assert(digits_value(cs, i, j) == digits_value(cs, i, j - 1) * 10 + digit_value(cs[j - 1])->Some_0);
        assert((n / 10) * 10 + n % 10 == n);
        assert forall|k: int| 0 <= k < d.len() implies #[trigger] digit_value(d[k]) is Some by {
            if k < h.len() {
                assert(d[k] == h[k]);
            }
        }
    }
}

/// The digits from `i` run up to `j` when all of them are digits and the
/// character at `j` (if any) is not.
proof fn lemma_digits_end_at(cs: Seq<char>, i: int, j: int)
    requires
        0 <= i <= j <= cs.len(),
        forall|k: int| i <= k < j ==> #[trigger] digit_value(cs[k]) is Some,
        j < cs.len() ==> digit_value(cs[j]) is None,
    ensures
        digits_end(cs, i) == j,
    decreases j - i,
{
    if i < j {
        lemma_digits_end_at(cs, i + 1, j);
    }
}

/// The letter of a piece in hand is no digit and names the side and kind it was written for.
proof fn lemma_hand_char(i: int, sente: bool)
    requires
        0 <= i < 7,
    ensures
        digit_value(hand_char(i, sente)) is None,
        hand_side_letter(hand_char(i, sente)) == Some((if sente { Teban::Sente } else { Teban::Gote }, crate::shogi::mochigoma_of_index(i))),
        mochigoma_index(crate::shogi::mochigoma_of_index(i)) == i,
{
}

/// The counts `sc` with `c` added on the kinds from `7 - n` up.
pub open spec fn counts_added(sc: Seq<int>, c: Seq<u32>, n: int) -> Seq<int> {
    Seq::new(7, |k: int| if k >= 7 - n { sc[k] + c[k] } else { sc[k] })
}

/// The counts `s` with `v` more of the kind numbered `i`.
pub open spec fn add_at(s: Seq<int>, i: int, v: u32) -> Seq<int> {
    s.update(i, s[i] + v)
}

/// Reading the text of `v` pieces of kind `i` at `p` adds them to the
/// side's counts and stops after the text.
proof fn lemma_hand_token_scan(cs: Seq<char>, p: int, v: u32, i: int, sente: bool, s: Seq<int>, g: Seq<int>)
    requires
        0 <= p,
        0 <= i < 7,
        s.len() == 7,
        g.len() == 7,
        p + hand_token(v, i, sente).len() <= cs.len(),
        forall|k: int| 0 <= k < hand_token(v, i, sente).len() ==> cs[p + k] == #[trigger] hand_token(v, i, sente)[k],
    ensures
        hand_scan(cs, p, s, g) == if sente {
            hand_scan(cs, p + hand_token(v, i, sente).len(), add_at(s, i, v), g)
        } else {
            hand_scan(cs, p + hand_token(v, i, sente).len(), s, add_at(g, i, v))
        },
{
    let tok = hand_token(v, i, sente);
    let ch = hand_char(i, sente);
    lemma_hand_char(i, sente);
    if v == 0 {
        assert(add_at(s, i, v) =~= s);
        assert(add_at(g, i, v) =~= g);
    } else if v == 1 {
        assert(tok[0] == ch);
        assert(cs[p + 0] == tok[0]);
        lemma_digits_end_at(cs, p, p);
    } else {
        let d = decimal(v as nat);
        assert forall|m: int| 0 <= m < d.len() implies cs[p + m] == #[trigger] d[m] by {
            assert(tok[m] == d[m]);
        }
        lemma_decimal_reads(cs, p, v as nat);
        let j = p + d.len();
        assert(tok[d.len() as int] == ch);
        assert(cs[p + d.len()] == tok[d.len() as int]);
        assert forall|m: int| p <= m < j implies #[trigger] digit_value(cs[m]) is Some by {
            assert(cs[p + (m - p)] == d[m - p]);
        }
        lemma_digits_end_at(cs, p, j);
    }
}

/// Reading the first `n` pieces of the text of a hand, written at `i0`,
/// adds their counts to the side's counts and stops after them.
proof fn lemma_hand_text_scan(cs: Seq<char>, i0: int, c: Seq<u32>, sente: bool, n: int, sc: Seq<int>, gc: Seq<int>)
    requires
        0 <= n <= 7,
        0 <= i0,
        c.len() == 7,
        sc.len() == 7,
        gc.len() == 7,
        i0 + hand_sfen(c, sente, 7).len() <= cs.len(),
        forall|k: int| 0 <= k < hand_sfen(c, sente, 7).len() ==> cs[i0 + k] == #[trigger] hand_sfen(c, sente, 7)[k],
    ensures
        hand_scan(cs, i0, sc, gc) == if sente {
            hand_scan(cs, i0 + hand_sfen(c, sente, n).len(), counts_added(sc, c, n), gc)
        } else {
            hand_scan(cs, i0 + hand_sfen(c, sente, n).len(), sc, counts_added(gc, c, n))
        },
    decreases n,
{
    if n == 0 {
        assert(counts_added(sc, c, 0) =~= sc);
        assert(counts_added(gc, c, 0) =~= gc);
    } else {
        lemma_hand_text_scan(cs, i0, c, sente, n - 1, sc, gc);
        lemma_hand_prefix(c, sente, n, 7);
        let i = 7 - n;
        let pre = hand_sfen(c, sente, n - 1);
        let tok = hand_token(c[i], i, sente);
        let p = i0 + pre.len();
        assert(hand_sfen(c, sente, n) == pre + tok);
        assert forall|k: int| 0 <= k < tok.len() implies cs[p + k] == #[trigger] tok[k] by {
            assert(hand_sfen(c, sente, n)[pre.len() + k] == tok[k]);
            assert(cs[i0 + (pre.len() + k)] == hand_sfen(c, sente, 7)[pre.len() + k]);
        }
        if sente {
            lemma_hand_token_scan(cs, p, c[i], i, sente, counts_added(sc, c, n - 1), gc);
            assert(add_at(counts_added(sc, c, n - 1), i, c[i]) =~= counts_added(sc, c, n));
        } else {
            lemma_hand_token_scan(cs, p, c[i], i, sente, sc, counts_added(gc, c, n - 1));
            assert(add_at(counts_added(gc, c, n - 1), i, c[i]) =~= counts_added(gc, c, n));
        }
    }
}

/// The text of the first `n` pieces of a hand begins the text of the first `m`.
proof fn lemma_hand_prefix(c: Seq<u32>, sente: bool, n: int, m: int)
    requires
        0 <= n <= m <= 7,
    ensures
        hand_sfen(c, sente, n).len() <= hand_sfen(c, sente, m).len(),
        forall|k: int| 0 <= k < hand_sfen(c, sente, n).len() ==> #[trigger] hand_sfen(c, sente, n)[k] == hand_sfen(c, sente, m)[k],
    decreases m - n,
{
    if n < m {
        lemma_hand_prefix(c, sente, n, m - 1);
        assert forall|k: int| 0 <= k < hand_sfen(c, sente, m - 1).len() implies
            #[trigger] hand_sfen(c, sente, m - 1)[k] == hand_sfen(c, sente, m)[k] by {}
    }
}

/// No character of the text of a hand is a dash, and the text is empty only
/// when the hand holds nothing of its kinds from `7 - n` up.
proof fn lemma_hand_text_chars(c: Seq<u32>, sente: bool, n: int)
    requires
        0 <= n <= 7,
        c.len() == 7,
    ensures
        forall|k: int| 0 <= k < hand_sfen(c, sente, n).len() ==> #[trigger] hand_sfen(c, sente, n)[k] != '-',
        hand_sfen(c, sente, n).len() == 0 ==> forall|k: int| 7 - n <= k < 7 ==> #[trigger] c[k] == 0,
    decreases n,
{
    if n > 0 {
        lemma_hand_text_chars(c, sente, n - 1);
        let i = 7 - n;
        let pre = hand_sfen(c, sente, n - 1);
        let tok = hand_token(c[i], i, sente);
        assert(hand_sfen(c, sente, n) == pre + tok);
        lemma_hand_char(i, sente);
        if c[i] > 1 {
            let d = decimal(c[i] as nat);
            lemma_decimal_reads(d, 0, c[i] as nat);
            assert forall|k: int| 0 <= k < tok.len() implies #[trigger] tok[k] != '-' by {
                if k < d.len() {
                    assert(tok[k] == d[k]);
                    assert(digit_value(d[k]) is Some);
                }
            }
        }
        assert forall|k: int| 0 <= k < hand_sfen(c, sente, n).len() implies #[trigger] hand_sfen(c, sente, n)[k] != '-' by {
            if k >= pre.len() {
                assert(hand_sfen(c, sente, n)[k] == tok[k - pre.len()]);
            } else {
                assert(hand_sfen(c, sente, n)[k] == pre[k]);
            }
        }
    }
}

/// Writing both hands in SFEN and reading the text back gives the same
/// counts, and every count read fits in a `u32`.
pub proof fn law_hands_sfen_roundtrip(ms: Mochigoma, mg: Mochigoma)
    ensures
        hand_fits(hands_sfen(MochigomaCollections::Pair(ms, mg))),
        hand_parse(hands_sfen(MochigomaCollections::Pair(ms, mg))) == (None::<HandFault>, counts_of(ms), counts_of(mg)),
{
    crate::shogi::lemma_mochigoma_len(ms);
    crate::shogi::lemma_mochigoma_len(mg);
    let a = hand_sfen(ms@, true, 7);
    let b = hand_sfen(mg@, false, 7);
    let t = a + b;
    lemma_hand_text_chars(ms@, true, 7);
    lemma_hand_text_chars(mg@, false, 7);
    if t.len() == 0 {
        assert(counts_of(ms) =~= zero_counts());
        assert(counts_of(mg) =~= zero_counts());
    } else {
        assert(t[0] != '-') by {
            if a.len() > 0 {
                assert(t[0] == a[0]);
            } else {
                assert(t[0] == b[0]);
            }
        }
        assert(t != seq!['-']);
        assert(hands_sfen(MochigomaCollections::Pair(ms, mg)) == t);
        assert forall|k: int| 0 <= k < a.len() implies t[0 + k] == #[trigger] a[k] by {}
        lemma_hand_text_scan(t, 0, ms@, true, 7, zero_counts(), zero_counts());
        assert forall|k: int| 0 <= k < b.len() implies t[a.len() + k] == #[trigger] b[k] by {}
        lemma_hand_text_scan(t, a.len() as int, mg@, false, 7, counts_added(zero_counts(), ms@, 7), zero_counts());
        assert(counts_added(zero_counts(), ms@, 7) =~= counts_of(ms));
        assert(counts_added(zero_counts(), mg@, 7) =~= counts_of(mg));
    }
}

/// Whether every count that reading the pieces in hand `s` reaches fits in
/// a `u32` (`hand_fits`).
pub fn hand_text_fits(s: &str) -> (r: bool)
    ensures
        r == hand_fits(s@),
{
    let cs = str_chars(s);
    if cs.len() == 1 && cs[0] == '-' {
        proof {
            assert(s@ =~= seq!['-']);
        }
        return true;
    }
    proof {
        assert(s@ != seq!['-']) by {
            if s@ == seq!['-'] { assert(cs@[0] == '-'); }
        }
    }
    let ghost whole = hand_parse(s@);
    let mut sv: Vec<u64> = vec![0, 0, 0, 0, 0, 0, 0];
    let mut gv: Vec<u64> = vec![0, 0, 0, 0, 0, 0, 0];
    let ghost mut sc: Seq<int> = zero_counts();
    let ghost mut gc: Seq<int> = zero_counts();
    let mut i: usize = 0;
    while i < cs.len()
        invariant
            cs@ == s@,
            i <= cs.len(),
            whole == hand_parse(s@),
            s@ != seq!['-'],
            sc.len() == 7,
            gc.len() == 7,
            sv@.len() == 7,
            gv@.len() == 7,
            forall|k: int| 0 <= k < 7 ==> #[trigger] sv@[k] == sc[k],
            forall|k: int| 0 <= k < 7 ==> #[trigger] gv@[k] == gc[k],
            forall|k: int| 0 <= k < 7 ==> #[trigger] sc[k] <= u32::MAX,
            forall|k: int| 0 <= k < 7 ==> #[trigger] gc[k] <= u32::MAX,
            hand_scan(s@, i as int, sc, gc) == whole,
        decreases cs.len() - i,
    {
        let (j, v) = scan_digits(&cs, i);
        proof {
            lemma_digits_end(cs@, i as int);
        }
        if j >= cs.len() {
            proof {
                assert(whole == (Some(HandFault::Empty), sc, gc));
            }
            return true;
        }
        let n: u32 = if j > i {
            match v {
                None => {
                    proof {
                        assert(whole == (Some(HandFault::NotNumber), sc, gc));
                    }
                    return true;
                },
                Some(n) => {
                    if n <= 1 {
                        proof {
                            assert(whole == (Some(HandFault::Count), sc, gc));
                        }
                        return true;
                    }
                    n
                },
            }
        } else {
            1
        };
        match hand_side_letter_exec(cs[j]) {
            None => {
                proof {
                    assert(whole == (Some(HandFault::BadPiece), sc, gc));
                }
                return true;
            },
            Some((t, k)) => {
                let ki = k.to_index();
                match t {
                    Teban::Sente => {
                        let c = sv[ki] + n as u64;
                        proof {
                            let sc2 = sc.update(ki as int, sc[ki as int] + n);
                            assert(hand_scan(s@, j as int + 1, sc2, gc) == whole);
                            lemma_hand_scan_grows(s@, j as int + 1, sc2, gc);
                        }
                        if c > u32::MAX as u64 {
                            proof {
                                let sc2 = sc.update(ki as int, sc[ki as int] + n);
                                assert(sc2[ki as int] <= hand_scan(s@, j as int + 1, sc2, gc).1[ki as int]);
                                assert(whole.1[ki as int] > u32::MAX);
                            }
                            return false;
                        }
                        sv.set(ki, c);
                        proof {
                            sc = sc.update(ki as int, sc[ki as int] + n);
                        }
                    },
                    Teban::Gote => {
                        let c = gv[ki] + n as u64;
                        proof {
                            let gc2 = gc.update(ki as int, gc[ki as int] + n);
                            assert(hand_scan(s@, j as int + 1, sc, gc2) == whole);
                            lemma_hand_scan_grows(s@, j as int + 1, sc, gc2);
                        }
                        if c > u32::MAX as u64 {
                            proof {
                                let gc2 = gc.update(ki as int, gc[ki as int] + n);
                                assert(gc2[ki as int] <= hand_scan(s@, j as int + 1, sc, gc2).2[ki as int]);
                                assert(whole.2[ki as int] > u32::MAX);
                                assert(!(whole.1[ki as int] <= u32::MAX && whole.2[ki as int] <= u32::MAX));
                                assert(hand_parse(s@).1[ki as int] == whole.1[ki as int]);
                                assert(0 <= ki < 7);
                                assert(!hand_fits(s@));
                            }
                            return false;
                        }
                        gv.set(ki, c);
                        proof {
                            gc = gc.update(ki as int, gc[ki as int] + n);
                        }
                    },
                }
            },
        }
        i = j + 1;
    }
    proof {
        assert(whole == (None::<HandFault>, sc, gc));
    }
    true
}

/// Whether the parameters of a `position` command stay within what reading
/// them can count (the requirement of `PositionParser::parse`).
pub fn position_params_fit(params: &[&str]) -> (r: bool)
    ensures
        r == (params@.len() > 0 && params@[0]@ == "sfen"@
            && sfen_reaches_hands(params_view(params@).subrange(1, params@.len() as int))
            ==> hand_fits(params@[3]@)),
{
    let ghost pv = params_view(params@);
    if params.len() == 0 {
        return true;
    }
    proof {
        assert(pv[0] == params@[0]@);
    }
    if !str_eq(params[0], "sfen") {
        return true;
    }
    let ghost ps = pv.subrange(1, params@.len() as int);
    let n = params.len() - 1;
    if n <= 3 {
        return true;
    }
    proof {
        assert(ps[0] == params@[1]@);
        assert(ps[1] == params@[2]@);
        assert(ps[2] == params@[3]@);
        assert(ps[3] == params@[4]@);
    }
    if n > 4 {
        proof {
            assert(ps[4] == params@[5]@);
        }
        if !str_eq(params[5], "moves") || n <= 5 {
            return true;
        }
        let mv = parse_moves(params, 6);
        proof {
            assert(ps.subrange(5, ps.len() as int) =~= pv.subrange(6, params@.len() as int));
        }
        if mv.is_err() {
            return true;
        }
    }
    let t = <Teban as TryFrom<&str, TypeConvertError>>::try_from(params[2]);
    if t.is_err() {
        return true;
    }
    let b = <Banmen as TryFrom<&str, TypeConvertError>>::try_from(params[1]);
    if b.is_err() {
        return true;
    }
    hand_text_fits(params[3])
}

/// The value of `cs` read as an `i64` the way std reads one: an optional
/// `+` or `-`, then at least one digit and nothing else, within range.
pub open spec fn i64_text(cs: Seq<char>) -> Option<int> {
    let neg = cs.len() > 0 && cs[0] == '-';
    let start: int = if cs.len() > 0 && (cs[0] == '-' || cs[0] == '+') { 1 } else { 0 };
    if start >= cs.len() || digits_end(cs, start) != cs.len() {
        None
    } else {
        let v = digits_value(cs, start, cs.len() as int);
        let x = if neg { -v } else { v };
        if i64::MIN <= x <= i64::MAX { Some(x) } else { None }
    }
}

/// Reads `s` as an `i64` (`i64_text`).
pub fn parse_i64(s: &str) -> (r: Option<i64>)
    ensures
        r matches Some(v) ==> i64_text(s@) == Some(v as int),
        r is None ==> i64_text(s@) is None,
{
    let cs = str_chars(s);
    let neg = cs.len() > 0 && cs[0] == '-';
    let start: usize = if cs.len() > 0 && (cs[0] == '-' || cs[0] == '+') { 1 } else { 0 };
    if start >= cs.len() {
        return None;
    }
    proof {
        lemma_digits_end(cs@, start as int);
    }
    let mut j: usize = start;
    let mut v: u64 = 0;
    while j < cs.len()
        invariant
            start <= j <= cs.len(),
            start < cs.len(),
            cs@ == s@,
            start == (if cs@.len() > 0 && (cs@[0] == '-' || cs@[0] == '+') { 1int } else { 0int }),
            neg == (cs@.len() > 0 && cs@[0] == '-'),
            digits_end(cs@, start as int) == digits_end(cs@, j as int),
            forall|k: int| start <= k < j ==> #[trigger] digit_value(cs@[k]) is Some,
            digits_value(cs@, start as int, j as int) == v,
            v <= 0x8000_0000_0000_0000u64,
        decreases cs.len() - j,
    {
        match digit_value_exec(cs[j]) {
            None => {
                proof {
                    assert(digits_end(cs@, j as int) == j);
                    assert(digits_end(cs@, start as int) == j);
                    assert(j < s@.len());
                    let st: int = if cs@.len() > 0 && (cs@[0] == '-' || cs@[0] == '+') { 1 } else { 0 };
                    assert(st == start);
                    assert(i64_text(cs@) is None);
                }
                return None;
            },
            Some(d) => {
                proof {
                    lemma_digits_value_grows(cs@, start as int, j as int + 1);
                    assert(digits_value(cs@, start as int, j + 1) == v * 10 + d);
                }
                if v > 922_337_203_685_477_580u64 || (v == 922_337_203_685_477_580u64 && d > 8) {
                    proof {
                        lemma_digits_end(cs@, start as int);
                        if digits_end(cs@, start as int) == cs@.len() {
                            lemma_digits_value_monotone(cs@, start as int, j as int + 1);
                            assert(digits_value(cs@, start as int, cs@.len() as int)
                                >= digits_value(cs@, start as int, j as int + 1));
                            assert(digits_value(cs@, start as int, j as int + 1) > 0x8000_0000_0000_0000u64);
                            assert(digits_value(cs@, start as int, s@.len() as int) > 0x8000_0000_0000_0000u64);
                        }
                    }
                    return None;
                }
                v = v * 10 + d as u64;
                j = j + 1;
            },
        }
    }
    if neg {
        if v == 0x8000_0000_0000_0000u64 {
            Some(i64::MIN)
        } else {
            Some(-(v as i64))
        }
    } else {
        if v > i64::MAX as u64 {
            None
        } else {
            Some(v as i64)
        }
    }
}

/// Reading more digits never gives a smaller value.
proof fn lemma_digits_value_monotone(cs: Seq<char>, i: int, j: int)
    requires
        i <= j <= cs.len(),
        forall|k: int| i <= k < cs.len() ==> #[trigger] digit_value(cs[k]) is Some,
    ensures
        forall|m: int| j <= m <= cs.len() ==> #[trigger] digits_value(cs, i, m) >= digits_value(cs, i, j),
    decreases cs.len() - j,
{
    if j < cs.len() {
        lemma_digits_value_monotone(cs, i, j + 1);
        lemma_digits_value_grows(cs, i, j + 1);
        assert(digits_value(cs, i, j + 1) == digits_value(cs, i, j) * 10 + digit_value(cs[j])->Some_0);
    }
}

/// Whether `m` can be written without a row of 0 (`move_writable`).
pub fn move_writable_check(m: &Move) -> (r: bool)
    ensures
        r == move_writable(*m),
{
    match m {
        Move::To(KomaSrcPosition(_, sy), KomaDstToPosition(_, dy, _)) => *sy != 0 && (*sy > 9 || *dy != 0),
        Move::Put(_, KomaDstPutPosition(_, y)) => *y != 0,
    }
}

/// Whether the moves of the command `c` can be written (`command_writable`).
pub fn command_writable_check(c: &UsiCommand) -> (r: bool)
    ensures
        r == command_writable(*c),
{
    match c {
        UsiCommand::UsiBestMove(BestMove::Move(m, None)) => move_writable_check(m),
        UsiCommand::UsiBestMove(BestMove::Move(m, Some(pm))) => {
            if !move_writable_check(m) {
                return false;
            }
            match move_to_string(m) {
                Ok(_) => move_writable_check(pm),
                Err(_) => true,
            }
        },
        UsiCommand::UsiBestMove(_) => true,
        UsiCommand::UsiInfo(v) => {
            let mut i: usize = 0;
            while i < v.len()
                invariant
                    i <= v.len(),
                    *c == UsiCommand::UsiInfo(*v),
                    forall|j: int| 0 <= j < i ==> (#[trigger] v@[j] matches UsiInfoSubCommand::CurMove(m) ==> move_writable(m)),
                decreases v.len() - i,
            {
                match &v[i] {
                    UsiInfoSubCommand::CurMove(m) => {
                        if !move_writable_check(m) {
                            proof {
                                assert(!(v@[i as int] matches UsiInfoSubCommand::CurMove(m) ==> move_writable(m)));
                            }
                            return false;
                        }
                    },
                    _ => {},
                }
                i = i + 1;
            }
            true
        },
        _ => true,
    }
}

} // verus!
