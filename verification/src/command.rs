//! The commands an engine sends to the GUI under the USI protocol.
use vstd::prelude::*;
use crate::shogi::Move;
use crate::rule::{Validate, valid_move};

verus! {

/// A command sent to the GUI.
#[derive(Debug, PartialEq, Eq)]
pub enum UsiCommand {
    /// `usiok`
    UsiOk,
    /// `id name ...` / `id author ...`
    UsiId(String, String),
    /// `readyok`
    UsiReadyOk,
    /// `bestmove ...`
    UsiBestMove(BestMove),
    /// `info ...`
    UsiInfo(Vec<UsiInfoSubCommand>),
    /// `option name ... type ...`
    UsiOption(String, UsiOptType),
    /// `checkmate ...`
    UsiCheckMate(CheckMate),
}

/// The result of thinking.
#[derive(Clone, Copy, Debug, PartialEq, Eq, Structural)]
pub enum BestMove {
    /// A move, and the move expected in reply (for pondering).
    Move(Move, Option<Move>),
    /// Resigning.
    Resign,
    /// Declaring a win.
    Win,
    /// Thinking was aborted.
    Abort,
}

/// One item of an `info` command.
#[derive(Clone, Debug, PartialEq, Eq)]
pub enum UsiInfoSubCommand {
    Depth(u32),
    SelDepth(u32),
    Time(u64),
    Nodes(u64),
    Pv(Vec<Move>),
    MultiPv(u32),
    Score(UsiScore),
    CurMove(Move),
    Hashfull(u64),
    Nps(u64),
    Str(String),
}

/// The kind of an `info` item.
#[derive(Clone, Copy, Hash, Debug, PartialEq, Eq, Structural)]
pub enum UsiInfoSubCommandKind {
    Depth,
    SelDepth,
    Time,
    Nodes,
    Pv,
    MultiPv,
    Score,
    CurMove,
    Hashfull,
    Nps,
    Str,
}

/// An evaluation.
#[derive(Clone, Copy, Debug, PartialEq, Eq, Structural)]
pub enum UsiScore {
    Cp(i64),
    CpUpper(i64),
    CpLower(i64),
    Mate(UsiScoreMate),
    MateUpper(i64),
    MateLower(i64),
}

/// A mate announcement.
#[derive(Clone, Copy, Debug, PartialEq, Eq, Structural)]
pub enum UsiScoreMate {
    Num(i64),
    Plus,
    Minus,
}

/// The answer to a mate search.
#[derive(Debug, PartialEq, Eq)]
pub enum CheckMate {
    Moves(Vec<Move>),
    NotiImplemented,
    Timeout,
    Nomate,
    Abort,
}

/// The type of an engine option.
#[derive(Clone, Debug, PartialEq, Eq)]
pub enum UsiOptType {
    Check(Option<bool>),
    Spin(i64, i64, Option<i64>),
    Combo(Option<String>, Vec<String>),
    Button,
    String(Option<String>),
    FileName(Option<String>),
}

/// The kind of an `info` item.
pub open spec fn info_kind(c: UsiInfoSubCommand) -> UsiInfoSubCommandKind {
    match c {
        UsiInfoSubCommand::Depth(_) => UsiInfoSubCommandKind::Depth,
        UsiInfoSubCommand::SelDepth(_) => UsiInfoSubCommandKind::SelDepth,
        UsiInfoSubCommand::Time(_) => UsiInfoSubCommandKind::Time,
        UsiInfoSubCommand::Nodes(_) => UsiInfoSubCommandKind::Nodes,
        UsiInfoSubCommand::Pv(_) => UsiInfoSubCommandKind::Pv,
        UsiInfoSubCommand::MultiPv(_) => UsiInfoSubCommandKind::MultiPv,
        UsiInfoSubCommand::Score(_) => UsiInfoSubCommandKind::Score,
        UsiInfoSubCommand::CurMove(_) => UsiInfoSubCommandKind::CurMove,
        UsiInfoSubCommand::Hashfull(_) => UsiInfoSubCommandKind::Hashfull,
        UsiInfoSubCommand::Nps(_) => UsiInfoSubCommandKind::Nps,
        UsiInfoSubCommand::Str(_) => UsiInfoSubCommandKind::Str,
    }
}

impl UsiInfoSubCommand {
    /// The kind of this item.
    pub fn get_kind(&self) -> (r: UsiInfoSubCommandKind)
        ensures
            r == info_kind(*self),
    {
        match self {
            UsiInfoSubCommand::Depth(_) => UsiInfoSubCommandKind::Depth,
            UsiInfoSubCommand::SelDepth(_) => UsiInfoSubCommandKind::SelDepth,
            UsiInfoSubCommand::Time(_) => UsiInfoSubCommandKind::Time,
            UsiInfoSubCommand::Nodes(_) => UsiInfoSubCommandKind::Nodes,
            UsiInfoSubCommand::Pv(_) => UsiInfoSubCommandKind::Pv,
            UsiInfoSubCommand::MultiPv(_) => UsiInfoSubCommandKind::MultiPv,
            UsiInfoSubCommand::Score(_) => UsiInfoSubCommandKind::Score,
            UsiInfoSubCommand::CurMove(_) => UsiInfoSubCommandKind::CurMove,
            UsiInfoSubCommand::Hashfull(_) => UsiInfoSubCommandKind::Hashfull,
            UsiInfoSubCommand::Nps(_) => UsiInfoSubCommandKind::Nps,
            UsiInfoSubCommand::Str(_) => UsiInfoSubCommandKind::Str,
        }
    }
}

/// A list of moves that is not empty and whose moves all lie on the board.
pub open spec fn moves_valid(v: Seq<Move>) -> bool {
    v.len() >= 1 && forall|i: int| 0 <= i < v.len() ==> valid_move(#[trigger] v[i])
}

/// Whether an `info` item is valid on its own.
pub open spec fn info_item_valid(c: UsiInfoSubCommand) -> bool {
    match c {
        UsiInfoSubCommand::Pv(v) => moves_valid(v@),
        UsiInfoSubCommand::CurMove(m) => valid_move(m),
        _ => true,
    }
}

/// The check of the `info` items from index `i` on, having seen the kinds
/// `seen`, the last of them `prev`: a `pv` and a `string` never go together,
/// `seldepth` comes right after `depth`, a `pv` ends the check with its own
/// validity, no kind comes twice, and `multipv` needs a `pv`.
pub open spec fn info_check(
    cmds: Seq<UsiInfoSubCommand>,
    i: int,
    seen: Set<UsiInfoSubCommandKind>,
    prev: Option<UsiInfoSubCommandKind>,
) -> bool
    decreases cmds.len() - i,
{
    if i < 0 || i >= cmds.len() {
        !(seen.contains(UsiInfoSubCommandKind::MultiPv) && !seen.contains(UsiInfoSubCommandKind::Pv))
    } else {
        let c = cmds[i];
        let k = info_kind(c);
        if k == UsiInfoSubCommandKind::Pv && seen.contains(UsiInfoSubCommandKind::Str) {
            false
        } else if k == UsiInfoSubCommandKind::Str && seen.contains(UsiInfoSubCommandKind::Pv) {
            false
        } else if k == UsiInfoSubCommandKind::SelDepth && prev != Some(UsiInfoSubCommandKind::Depth) {
            false
        } else if k == UsiInfoSubCommandKind::Pv {
            info_item_valid(c)
        } else if seen.contains(k) {
            false
        } else {
            info_check(cmds, i + 1, seen.insert(k), Some(k))
        }
    }
}

/// Whether a command is valid.
pub open spec fn command_valid(c: UsiCommand) -> bool {
    match c {
        UsiCommand::UsiBestMove(BestMove::Move(m, p)) => valid_move(m) && (p matches Some(pm) ==> valid_move(pm)),
        UsiCommand::UsiInfo(v) => info_check(v@, 0, Set::empty(), None),
        UsiCommand::UsiOption(_, o) => option_valid(o),
        UsiCommand::UsiCheckMate(c) => check_mate_valid(c),
        _ => true,
    }
}

/// A combo option needs at least one choice.
pub open spec fn option_valid(o: UsiOptType) -> bool {
    match o {
        UsiOptType::Combo(_, l) => l@.len() >= 1,
        _ => true,
    }
}

/// A list of mating moves must not be empty and must lie on the board.
pub open spec fn check_mate_valid(c: CheckMate) -> bool {
    match c {
        CheckMate::Moves(v) => moves_valid(v@),
        _ => true,
    }
}

/// Whether every move of `v` lies on the board (and there is at least one).
fn moves_validate(v: &Vec<Move>) -> (r: bool)
    ensures
        r == moves_valid(v@),
{
    if v.len() < 1 {
        return false;
    }
    let mut i: usize = 0;
    while i < v.len()
        invariant
            i <= v.len(),
            forall|j: int| 0 <= j < i ==> valid_move(#[trigger] v@[j]),
        decreases v.len() - i,
    {
        if !v[i].validate() {
            return false;
        }
        i += 1;
    }
    true
}

/// The position of a kind in a bit mask.
pub(crate) fn kind_bit(k: UsiInfoSubCommandKind) -> (r: u32)
    ensures
        r == kind_bit_spec(k),
        r < 11,
{
    match k {
        UsiInfoSubCommandKind::Depth => 0,
        UsiInfoSubCommandKind::SelDepth => 1,
        UsiInfoSubCommandKind::Time => 2,
        UsiInfoSubCommandKind::Nodes => 3,
        UsiInfoSubCommandKind::Pv => 4,
        UsiInfoSubCommandKind::MultiPv => 5,
        UsiInfoSubCommandKind::Score => 6,
        UsiInfoSubCommandKind::CurMove => 7,
        UsiInfoSubCommandKind::Hashfull => 8,
        UsiInfoSubCommandKind::Nps => 9,
        UsiInfoSubCommandKind::Str => 10,
    }
}

pub open spec fn kind_bit_spec(k: UsiInfoSubCommandKind) -> u32 {
    match k {
        UsiInfoSubCommandKind::Depth => 0,
        UsiInfoSubCommandKind::SelDepth => 1,
        UsiInfoSubCommandKind::Time => 2,
        UsiInfoSubCommandKind::Nodes => 3,
        UsiInfoSubCommandKind::Pv => 4,
        UsiInfoSubCommandKind::MultiPv => 5,
        UsiInfoSubCommandKind::Score => 6,
        UsiInfoSubCommandKind::CurMove => 7,
        UsiInfoSubCommandKind::Hashfull => 8,
        UsiInfoSubCommandKind::Nps => 9,
        UsiInfoSubCommandKind::Str => 10,
    }
}

/// The kinds whose bit is set in `mask`.
pub open spec fn mask_kinds(mask: u32) -> Set<UsiInfoSubCommandKind> {
    Set::new(|k: UsiInfoSubCommandKind| (mask >> kind_bit_spec(k)) & 1u32 == 1u32)
}

pub(crate) proof fn lemma_mask_insert(mask: u32, b: u32, c: u32)
    by (bit_vector)
    requires
        b < 32,
        c < 32,
    ensures
        ((mask | (1u32 << b)) >> c) & 1u32 == 1u32 <==> ((mask >> c) & 1u32 == 1u32 || b == c),
        (mask & (1u32 << b)) != 0 <==> (mask >> b) & 1u32 == 1u32,
        (0u32 >> c) & 1u32 == 0u32,
{
}

/// Checks a list of `info` items.
fn info_validate(cmds: &Vec<UsiInfoSubCommand>) -> (r: bool)
    ensures
        r == info_check(cmds@, 0, Set::empty(), None),
{
    let mut seen: u32 = 0;
    let mut prev: Option<UsiInfoSubCommandKind> = None;
    let mut i: usize = 0;
    proof {
        assert forall|k: UsiInfoSubCommandKind| !mask_kinds(0).contains(k) by {
            lemma_mask_insert(0, 0, kind_bit_spec(k));
        }
        assert(mask_kinds(0) =~= Set::empty());
    }
    while i < cmds.len()
        invariant
            i <= cmds.len(),
            info_check(cmds@, 0, Set::empty(), None) == info_check(cmds@, i as int, mask_kinds(seen), prev),
        decreases cmds.len() - i,
    {
        let c = &cmds[i];
        let k = c.get_kind();
        let kb = kind_bit(k);
        proof {
            lemma_mask_insert(seen, kb, 4);
            lemma_mask_insert(seen, kb, 10);
            lemma_mask_insert(seen, 4, kb);
            lemma_mask_insert(seen, 10, kb);
        }
        let has_str = (seen & (1u32 << 10u32)) != 0;
        let has_pv = (seen & (1u32 << 4u32)) != 0;
        let has_k = (seen & (1u32 << kb)) != 0;
        match c {
            UsiInfoSubCommand::Pv(_) => {
                if has_str {
                    return false;
                }
            },
            UsiInfoSubCommand::Str(_) => {
                if has_pv {
                    return false;
                }
            },
            UsiInfoSubCommand::SelDepth(_) => {
                if prev != Some(UsiInfoSubCommandKind::Depth) {
                    return false;
                }
            },
            _ => {},
        }
        match c {
            UsiInfoSubCommand::Pv(v) => {
                return moves_validate(v);
            },
            _ => {},
        }
        if has_k {
            return false;
        }
        proof {
            assert forall|j: UsiInfoSubCommandKind| mask_kinds(seen | (1u32 << kb)).contains(j) == mask_kinds(seen).insert(k).contains(j) by {
                lemma_mask_insert(seen, kb, kind_bit_spec(j));
            }
            assert(mask_kinds(seen | (1u32 << kb)) =~= mask_kinds(seen).insert(k));
        }
        seen = seen | (1u32 << kb);
        prev = Some(k);
        i += 1;
    }
    proof {
        lemma_mask_insert(seen, 5, 5);
        lemma_mask_insert(seen, 4, 4);
    }
    !((seen & (1u32 << 5u32)) != 0 && (seen & (1u32 << 4u32)) == 0)
}

impl Validate for UsiCommand {
    /// Whether the command is valid: moves lie on the board, `info` items are
    /// well formed, combo options have choices, mate answers are not empty.
    fn validate(&self) -> (r: bool)
        ensures
            r == command_valid(*self),
    {
        match self {
            UsiCommand::UsiBestMove(BestMove::Move(m, p)) => {
                if !m.validate() {
                    return false;
                }
                match p {
                    Some(pm) => pm.validate(),
                    None => true,
                }
            },
            UsiCommand::UsiInfo(commands) => info_validate(commands),
            UsiCommand::UsiOption(_, opt) => opt.validate(),
            UsiCommand::UsiCheckMate(c) => c.validate(),
            _ => true,
        }
    }
}

impl Validate for UsiInfoSubCommand {
    /// A `pv` is not empty and its moves lie on the board; a `currmove` lies on the board.
    fn validate(&self) -> (r: bool)
        ensures
            r == info_item_valid(*self),
    {
        match self {
            UsiInfoSubCommand::Pv(v) => moves_validate(v),
            UsiInfoSubCommand::CurMove(m) => m.validate(),
            _ => true,
        }
    }
}

impl Validate for CheckMate {
    /// A list of mating moves is not empty and its moves lie on the board.
    fn validate(&self) -> (r: bool)
        ensures
            r == check_mate_valid(*self),
    {
        match self {
            CheckMate::Moves(v) => moves_validate(v),
            _ => true,
        }
    }
}

impl Validate for UsiOptType {
    /// A combo option has at least one choice.
    fn validate(&self) -> (r: bool)
        ensures
            r == option_valid(*self),
    {
        match self {
            UsiOptType::Combo(_, l) => l.len() >= 1,
            _ => true,
        }
    }
}

} // verus!
