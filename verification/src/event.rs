//! Events exchanged between the protocol front end and the engine.
use vstd::prelude::*;
use crate::MaxIndex;
use crate::shogi::{Teban, Move, Banmen, MochigomaCollections, MochigomaKind, KomaKind, KomaSrcPosition,
    KomaDstToPosition, KomaDstPutPosition, banmen_at};
use crate::protocol::UsiOutput;
use crate::error::TypeConvertError;
use crate::rule::Validate;

verus! {

/// Values that belong to a kind of event.
pub trait MapEventKind<K> {
    /// The kind of this event.
    fn event_kind(&self) -> K;
}

/// An event of the protocol.
#[derive(Debug)]
pub enum SystemEvent {
    Usi,
    IsReady,
    SetOption(String, SysEventOption),
    UsiNewGame,
    Position(Teban, UsiInitialPosition, u32, Vec<Move>),
    Go(UsiGo),
    Stop,
    PonderHit,
    Quit,
    GameOver(GameEndState),
    SendUsiCommand(UsiOutput),
    QuitReady,
}

/// The kind of a protocol event.
#[derive(Clone, Copy, Debug, PartialEq, Eq, Structural)]
pub enum SystemEventKind {
    Usi,
    IsReady,
    SetOption,
    UsiNewGame,
    Position,
    Go,
    Stop,
    PonderHit,
    Quit,
    GameOver,
    SendUsiCommand,
    QuitReady,
}

/// The number of a protocol event kind, in declaration order.
pub open spec fn system_event_kind_index(k: SystemEventKind) -> usize {
    match k {
        SystemEventKind::Usi => 0,
        SystemEventKind::IsReady => 1,
        SystemEventKind::SetOption => 2,
        SystemEventKind::UsiNewGame => 3,
        SystemEventKind::Position => 4,
        SystemEventKind::Go => 5,
        SystemEventKind::Stop => 6,
        SystemEventKind::PonderHit => 7,
        SystemEventKind::Quit => 8,
        SystemEventKind::GameOver => 9,
        SystemEventKind::SendUsiCommand => 10,
        SystemEventKind::QuitReady => 11,
    }
}

impl SystemEventKind {
    /// The number of this kind, in declaration order.
    pub fn to_index(self) -> (r: usize)
        ensures
            r == system_event_kind_index(self),
    {
        match self {
            SystemEventKind::Usi => 0,
            SystemEventKind::IsReady => 1,
            SystemEventKind::SetOption => 2,
            SystemEventKind::UsiNewGame => 3,
            SystemEventKind::Position => 4,
            SystemEventKind::Go => 5,
            SystemEventKind::Stop => 6,
            SystemEventKind::PonderHit => 7,
            SystemEventKind::Quit => 8,
            SystemEventKind::GameOver => 9,
            SystemEventKind::SendUsiCommand => 10,
            SystemEventKind::QuitReady => 11,
        }
    }
}

impl MaxIndex for SystemEventKind {
    /// The number of `QuitReady`, the last kind.
    fn max_index() -> (r: usize)
        ensures
            r == system_event_kind_index(SystemEventKind::QuitReady),
    {
        11
    }
}

/// The kind of a protocol event.
pub open spec fn system_event_kind(e: SystemEvent) -> SystemEventKind {
    match e {
        SystemEvent::Usi => SystemEventKind::Usi,
        SystemEvent::IsReady => SystemEventKind::IsReady,
        SystemEvent::SetOption(_, _) => SystemEventKind::SetOption,
        SystemEvent::UsiNewGame => SystemEventKind::UsiNewGame,
        SystemEvent::Position(_, _, _, _) => SystemEventKind::Position,
        SystemEvent::Go(_) => SystemEventKind::Go,
        SystemEvent::Stop => SystemEventKind::Stop,
        SystemEvent::PonderHit => SystemEventKind::PonderHit,
        SystemEvent::Quit => SystemEventKind::Quit,
        SystemEvent::GameOver(_) => SystemEventKind::GameOver,
        SystemEvent::SendUsiCommand(_) => SystemEventKind::SendUsiCommand,
        SystemEvent::QuitReady => SystemEventKind::QuitReady,
    }
}

impl MapEventKind<SystemEventKind> for SystemEvent {
    fn event_kind(&self) -> (r: SystemEventKind)
        ensures
            r == system_event_kind(*self),
    {
        match self {
            SystemEvent::Usi => SystemEventKind::Usi,
            SystemEvent::IsReady => SystemEventKind::IsReady,
            SystemEvent::SetOption(_, _) => SystemEventKind::SetOption,
            SystemEvent::UsiNewGame => SystemEventKind::UsiNewGame,
            SystemEvent::Position(_, _, _, _) => SystemEventKind::Position,
            SystemEvent::Go(_) => SystemEventKind::Go,
            SystemEvent::Stop => SystemEventKind::Stop,
            SystemEvent::PonderHit => SystemEventKind::PonderHit,
            SystemEvent::Quit => SystemEventKind::Quit,
            SystemEvent::GameOver(_) => SystemEventKind::GameOver,
            SystemEvent::SendUsiCommand(_) => SystemEventKind::SendUsiCommand,
            SystemEvent::QuitReady => SystemEventKind::QuitReady,
        }
    }
}

/// The value of an option set by the GUI.
#[derive(Clone, Debug, PartialEq, Eq)]
pub enum SysEventOption {
    Str(String),
    Num(i64),
    Bool(bool),
    Exist,
}

/// The kind of an option value.
#[derive(Clone, Copy, Debug, PartialEq, Eq, Structural)]
pub enum SysEventOptionKind {
    Str,
    Num,
    Bool,
    Exist,
}

/// The position a game starts from.
#[derive(Clone, Copy, Debug)]
pub enum UsiInitialPosition {
    /// A position given in SFEN: the board and the pieces in hand.
    Sfen(Banmen, MochigomaCollections),
    /// The usual starting position.
    Startpos,
}

/// The kind of search the GUI asks for.
#[derive(Clone, Copy, Debug, PartialEq, Eq)]
pub enum UsiGo {
    Go(UsiGoTimeLimit),
    Ponder(UsiGoTimeLimit),
    Mate(UsiGoMateTimeLimit),
}

/// Byoyomi, or the increments of both sides, in milliseconds.
#[derive(Clone, Copy, Debug, PartialEq, Eq, Structural)]
pub enum UsiGoByoyomiOrInc {
    Byoyomi(u32),
    Inc(u32, u32),
}

/// The time limits of a search: none, the remaining times of sente and gote
/// (milliseconds) and byoyomi or increments, or infinite.
#[derive(Clone, Copy, Debug, PartialEq, Eq)]
pub enum UsiGoTimeLimit {
    /// No limit was given.
    NoLimit,
    Limit(Option<(u32, u32)>, Option<UsiGoByoyomiOrInc>),
    Infinite,
}

/// The milliseconds side `teban` may think from the moment the search starts:
/// its remaining time plus its byoyomi or increment (`None` without a limit).
pub open spec fn limit_millis_spec(l: UsiGoTimeLimit, teban: Teban) -> Option<u64> {
    match l {
        UsiGoTimeLimit::NoLimit => None,
        UsiGoTimeLimit::Infinite => None,
        UsiGoTimeLimit::Limit(rest, extra) => {
            let base: int = match rest {
                Some((ms, mg)) => if teban == Teban::Sente { ms as int } else { mg as int },
                None => 0,
            };
            let add: int = match extra {
                Some(UsiGoByoyomiOrInc::Byoyomi(b)) => b as int,
                Some(UsiGoByoyomiOrInc::Inc(bs, bg)) => if teban == Teban::Sente { bs as int } else { bg as int },
                None => 0,
            };
            Some((base + add) as u64)
        },
    }
}

/// The time limit `calc_next_limit` reports, given the milliseconds `remaining`
/// before the deadline and the milliseconds `consumed` since the search
/// started: under a Fischer clock (increments) the time left plus what remains
/// before the deadline; otherwise the time left less the time consumed (down
/// to 0), and 0 without time left.
pub open spec fn next_limit_spec(l: UsiGoTimeLimit, teban: Teban, remaining: u64, consumed: u64) -> Option<u64> {
    match l {
        UsiGoTimeLimit::NoLimit => None,
        UsiGoTimeLimit::Infinite => None,
        UsiGoTimeLimit::Limit(Some((ms, mg)), Some(UsiGoByoyomiOrInc::Inc(_, _))) =>
            Some((if teban == Teban::Sente { ms as int } else { mg as int } + remaining) as u64),
        UsiGoTimeLimit::Limit(Some((ms, mg)), _) => {
            let left: int = if teban == Teban::Sente { ms as int } else { mg as int };
            Some(if left >= consumed { (left - consumed) as u64 } else { 0 })
        },
        UsiGoTimeLimit::Limit(None, Some(UsiGoByoyomiOrInc::Inc(_, _))) => Some(remaining),
        UsiGoTimeLimit::Limit(None, _) => Some(0),
    }
}

impl UsiGoTimeLimit {
    /// The milliseconds side `teban` may think from the start of the search.
    pub fn limit_millis(&self, teban: Teban) -> (r: Option<u64>)
        ensures
            r == limit_millis_spec(*self, teban),
    {
        match self {
            UsiGoTimeLimit::NoLimit => None,
            UsiGoTimeLimit::Infinite => None,
            UsiGoTimeLimit::Limit(rest, extra) => {
                let base: u64 = match rest {
                    Some((ms, mg)) => match teban {
                        Teban::Sente => *ms as u64,
                        Teban::Gote => *mg as u64,
                    },
                    None => 0,
                };
                let add: u64 = match extra {
                    Some(UsiGoByoyomiOrInc::Byoyomi(b)) => *b as u64,
                    Some(UsiGoByoyomiOrInc::Inc(bs, bg)) => match teban {
                        Teban::Sente => *bs as u64,
                        Teban::Gote => *bg as u64,
                    },
                    None => 0,
                };
                Some(base + add)
            },
        }
    }

    /// The deadline of side `teban` for a search started at `now` (times in
    /// milliseconds since a fixed instant); `None` without a limit.
    pub fn to_instant(&self, teban: Teban, now: u64) -> (r: Option<u64>)
        requires
            limit_millis_spec(*self, teban) matches Some(d) ==> now + d <= u64::MAX,
        ensures
            r == (match limit_millis_spec(*self, teban) {
                Some(d) => Some((now + d) as u64),
                None => None,
            }),
    {
        match self.limit_millis(teban) {
            Some(d) => Some(now + d),
            None => None,
        }
    }

    /// The time limit to report for side `teban` once `now` has come, in a
    /// search started at `think_start_time`: with increments, the time left
    /// plus what is left before the deadline; otherwise the time left less the
    /// time consumed since `think_start_time`; `None` without a limit.
    pub fn calc_next_limit(&self, teban: Teban, think_start_time: u64, now: u64) -> (r: Option<u64>)
        requires
            limit_millis_spec(*self, teban) matches Some(d) ==> think_start_time + d <= u64::MAX,
            (match self {
                UsiGoTimeLimit::Limit(Some((ms, mg)), Some(UsiGoByoyomiOrInc::Inc(_, _))) =>
                    (if teban == Teban::Sente { ms as int } else { mg as int }) + (think_start_time + limit_millis_spec(*self, teban)->0)
                        <= u64::MAX,
                _ => true,
            }),
        ensures
            r == next_limit_spec(*self, teban,
                match limit_millis_spec(*self, teban) {
                    Some(d) => if think_start_time + d >= now { (think_start_time + d - now) as u64 } else { 0 },
                    None => 0,
                },
                if now >= think_start_time { (now - think_start_time) as u64 } else { 0 }),
    {
        let consumed: u64 = if now >= think_start_time { now - think_start_time } else { 0 };
        let limit = self.to_instant(teban, think_start_time);
        match limit {
            None => None,
            Some(limit) => {
                let remaining: u64 = if limit >= now { limit - now } else { 0 };
                match self {
                    UsiGoTimeLimit::NoLimit => None,
                    UsiGoTimeLimit::Infinite => None,
                    UsiGoTimeLimit::Limit(Some((ms, mg)), Some(UsiGoByoyomiOrInc::Inc(_, _))) => Some(match teban {
                        Teban::Sente => *ms as u64 + remaining,
                        Teban::Gote => *mg as u64 + remaining,
                    }),
                    UsiGoTimeLimit::Limit(Some((ms, mg)), _) => {
                        let left: u64 = match teban {
                            Teban::Sente => *ms as u64,
                            Teban::Gote => *mg as u64,
                        };
                        Some(if left >= consumed { left - consumed } else { 0 })
                    },
                    UsiGoTimeLimit::Limit(None, Some(UsiGoByoyomiOrInc::Inc(_, _))) => Some(remaining),
                    UsiGoTimeLimit::Limit(None, _) => Some(0),
                }
            },
        }
    }
}

/// The time limit of a mate search.
#[derive(Clone, Copy, Debug, PartialEq, Eq, Structural)]
pub enum UsiGoMateTimeLimit {
    /// No limit was given.
    NoLimit,
    Limit(u32),
    Infinite,
}

impl UsiGoMateTimeLimit {
    /// The deadline of a mate search started at `now` (milliseconds); `None` without a limit.
    pub fn to_instant(&self, now: u64) -> (r: Option<u64>)
        requires
            *self matches UsiGoMateTimeLimit::Limit(l) ==> now + l <= u64::MAX,
        ensures
            r == (match *self {
                UsiGoMateTimeLimit::Limit(l) => Some((now + l) as u64),
                _ => None,
            }),
    {
        match self {
            UsiGoMateTimeLimit::Infinite | UsiGoMateTimeLimit::NoLimit => None,
            UsiGoMateTimeLimit::Limit(limit) => Some(now + *limit as u64),
        }
    }
}

/// An event raised by the user's side (the GUI's `stop`, `ponderhit`, `quit`).
#[derive(Clone, Copy, Debug, PartialEq, Eq, Structural)]
pub enum UserEvent {
    Stop,
    /// Pondering hit, at the given time (milliseconds).
    PonderHit(u64),
    Quit,
}

/// The kind of a user event.
#[derive(Clone, Copy, Debug, PartialEq, Eq, Structural)]
pub enum UserEventKind {
    Stop,
    PonderHit,
    Quit,
}

impl MapEventKind<UserEventKind> for UserEvent {
    fn event_kind(&self) -> (r: UserEventKind)
        ensures
            r == (match *self {
                UserEvent::Stop => UserEventKind::Stop,
                UserEvent::PonderHit(_) => UserEventKind::PonderHit,
                UserEvent::Quit => UserEventKind::Quit,
            }),
    {
        match self {
            UserEvent::Stop => UserEventKind::Stop,
            UserEvent::PonderHit(_) => UserEventKind::PonderHit,
            UserEvent::Quit => UserEventKind::Quit,
        }
    }
}

impl MaxIndex for UserEventKind {
    /// The number of `Quit`, the last kind.
    fn max_index() -> (r: usize)
        ensures
            r == 2,
    {
        2
    }
}

/// An event of a game between two engines.
#[derive(Debug)]
pub enum SelfMatchEvent {
    GameStart(u32, Teban, String),
    Moved(Teban, Moved),
    GameEnd(SelfMatchGameEndState),
    Abort,
}

/// A move as recorded: the kind moved with both squares (counted from 1), or a drop.
#[derive(Clone, Copy, Debug, PartialEq, Eq)]
pub enum Moved {
    To(MovedKind, (u32, u32), (u32, u32), bool),
    Put(MochigomaKind, (u32, u32)),
}

/// The kind of a moved piece, without its side except for the kings.
#[derive(Clone, Copy, Debug, PartialEq, Eq, Structural)]
pub enum MovedKind {
    Fu,
    Kyou,
    Kei,
    Gin,
    Kin,
    Kaku,
    Hisha,
    SOu,
    GOu,
    FuN,
    KyouN,
    KeiN,
    GinN,
    KakuN,
    HishaN,
    Blank,
}

/// The recorded kind of a board kind.
pub open spec fn moved_kind_of(k: KomaKind) -> MovedKind {
    match k {
        KomaKind::SFu => MovedKind::Fu,
        KomaKind::SKyou => MovedKind::Kyou,
        KomaKind::SKei => MovedKind::Kei,
        KomaKind::SGin => MovedKind::Gin,
        KomaKind::SKin => MovedKind::Kin,
        KomaKind::SKaku => MovedKind::Kaku,
        KomaKind::SHisha => MovedKind::Hisha,
        KomaKind::SOu => MovedKind::SOu,
        KomaKind::SFuN => MovedKind::FuN,
        KomaKind::SKyouN => MovedKind::KyouN,
        KomaKind::SKeiN => MovedKind::KeiN,
        KomaKind::SGinN => MovedKind::GinN,
        KomaKind::SKakuN => MovedKind::KakuN,
        KomaKind::SHishaN => MovedKind::HishaN,
        KomaKind::GFu => MovedKind::Fu,
        KomaKind::GKyou => MovedKind::Kyou,
        KomaKind::GKei => MovedKind::Kei,
        KomaKind::GGin => MovedKind::Gin,
        KomaKind::GKin => MovedKind::Kin,
        KomaKind::GKaku => MovedKind::Kaku,
        KomaKind::GHisha => MovedKind::Hisha,
        KomaKind::GOu => MovedKind::GOu,
        KomaKind::GFuN => MovedKind::FuN,
        KomaKind::GKyouN => MovedKind::KyouN,
        KomaKind::GKeiN => MovedKind::KeiN,
        KomaKind::GGinN => MovedKind::GinN,
        KomaKind::GKakuN => MovedKind::KakuN,
        KomaKind::GHishaN => MovedKind::HishaN,
        KomaKind::Blank => MovedKind::Blank,
    }
}

/// The record of `m` played on `b`.
pub open spec fn moved_of(b: Banmen, m: Move) -> Moved {
    match m {
        Move::To(KomaSrcPosition(sx, sy), KomaDstToPosition(dx, dy, n)) =>
            Moved::To(moved_kind_of(banmen_at(b, 9 - sx, sy - 1)), (sx, sy), (dx, dy), n),
        Move::Put(k, KomaDstPutPosition(x, y)) => Moved::Put(k, (x, y)),
    }
}

impl Moved {
    /// The record of `m` played on `banmen`: the kind standing on the origin.
    pub fn try_from(banmen: &Banmen, m: &Move) -> (r: Result<Moved, TypeConvertError>)
        requires
            *m matches Move::To(KomaSrcPosition(sx, sy), _) ==> 1 <= sx <= 9 && 1 <= sy <= 9,
        ensures
            r == Ok::<Moved, TypeConvertError>(moved_of(*banmen, *m)),
    {
        match m {
            Move::To(KomaSrcPosition(sx, sy), KomaDstToPosition(dx, dy, n)) => {
                let k = banmen.0[(*sy - 1) as usize][(9 - *sx) as usize];
                let mk = match k {
                    KomaKind::SFu => MovedKind::Fu,
                    KomaKind::SKyou => MovedKind::Kyou,
                    KomaKind::SKei => MovedKind::Kei,
                    KomaKind::SGin => MovedKind::Gin,
                    KomaKind::SKin => MovedKind::Kin,
                    KomaKind::SKaku => MovedKind::Kaku,
                    KomaKind::SHisha => MovedKind::Hisha,
                    KomaKind::SOu => MovedKind::SOu,
                    KomaKind::SFuN => MovedKind::FuN,
                    KomaKind::SKyouN => MovedKind::KyouN,
                    KomaKind::SKeiN => MovedKind::KeiN,
                    KomaKind::SGinN => MovedKind::GinN,
                    KomaKind::SKakuN => MovedKind::KakuN,
                    KomaKind::SHishaN => MovedKind::HishaN,
                    KomaKind::GFu => MovedKind::Fu,
                    KomaKind::GKyou => MovedKind::Kyou,
                    KomaKind::GKei => MovedKind::Kei,
                    KomaKind::GGin => MovedKind::Gin,
                    KomaKind::GKin => MovedKind::Kin,
                    KomaKind::GKaku => MovedKind::Kaku,
                    KomaKind::GHisha => MovedKind::Hisha,
                    KomaKind::GOu => MovedKind::GOu,
                    KomaKind::GFuN => MovedKind::FuN,
                    KomaKind::GKyouN => MovedKind::KyouN,
                    KomaKind::GKeiN => MovedKind::KeiN,
                    KomaKind::GGinN => MovedKind::GinN,
                    KomaKind::GKakuN => MovedKind::KakuN,
                    KomaKind::GHishaN => MovedKind::HishaN,
                    KomaKind::Blank => MovedKind::Blank,
                };
                Ok(Moved::To(mk, (*sx, *sy), (*dx, *dy), *n))
            },
            Move::Put(k, KomaDstPutPosition(x, y)) => Ok(Moved::Put(*k, (*x, *y))),
        }
    }
}

/// A record whose squares lie on the board and whose promotion is possible
/// for the kind (golds, kings, promoted pieces and empty squares do not promote).
pub open spec fn moved_valid(m: Moved) -> bool {
    match m {
        Moved::To(k, (sx, sy), (dx, dy), n) => {
            &&& 1 <= sx <= 9 && 1 <= sy <= 9 && 1 <= dx <= 9 && 1 <= dy <= 9
            &&& k != MovedKind::Blank
            &&& n ==> (k == MovedKind::Fu || k == MovedKind::Kyou || k == MovedKind::Kei || k == MovedKind::Gin
                || k == MovedKind::Kaku || k == MovedKind::Hisha)
        },
        Moved::Put(_, (x, y)) => 1 <= x <= 9 && 1 <= y <= 9,
    }
}

impl Validate for Moved {
    /// The squares lie on the board and the promotion is possible for the kind.
    fn validate(&self) -> (r: bool)
        ensures
            r == moved_valid(*self),
    {
        match self {
            Moved::To(_, (sx, sy), (dx, dy), _) if *sx < 1 || *sx > 9 || *sy < 1 || *sy > 9 || *dx < 1 || *dx > 9 || *dy < 1 || *dy > 9 => {
                return false;
            },
            Moved::Put(_, (x, y)) if *x < 1 || *x > 9 || *y < 1 || *y > 9 => {
                return false;
            },
            _ => {},
        }
        match self {
            Moved::Put(_, _) => true,
            Moved::To(MovedKind::Fu, _, _, _) | Moved::To(MovedKind::Kyou, _, _, _) | Moved::To(MovedKind::Kei, _, _, _)
            | Moved::To(MovedKind::Gin, _, _, _) | Moved::To(MovedKind::Kaku, _, _, _) | Moved::To(MovedKind::Hisha, _, _, _) => true,
            Moved::To(MovedKind::Kin, _, _, false) | Moved::To(MovedKind::SOu, _, _, false) | Moved::To(MovedKind::GOu, _, _, false)
            | Moved::To(MovedKind::FuN, _, _, false) | Moved::To(MovedKind::KyouN, _, _, false) | Moved::To(MovedKind::KeiN, _, _, false)
            | Moved::To(MovedKind::GinN, _, _, false) | Moved::To(MovedKind::KakuN, _, _, false)
            | Moved::To(MovedKind::HishaN, _, _, false) => true,
            _ => false,
        }
    }
}

/// How a game between two engines ended.
#[derive(Clone, Copy, Debug, PartialEq, Eq, Structural)]
pub enum SelfMatchGameEndState {
    Win(Teban),
    Resign(Teban),
    NyuGyokuWin(Teban),
    NyuGyokuLose(Teban),
    Draw,
    Foul(Teban, FoulKind),
    Timeover(Teban),
}

/// How a game ended for the engine.
#[derive(Clone, Copy, Debug, PartialEq, Eq, Structural)]
pub enum GameEndState {
    Win,
    Lose,
    Draw,
}

/// A foul that ends a game.
#[derive(Clone, Copy, Debug, PartialEq, Eq, Structural)]
pub enum FoulKind {
    InvalidMove,
    PutFuAndMate,
    Sennichite,
    SennichiteOu,
    NotRespondedOute,
    Suicide,
}

/// The kind of an event of a game between two engines.
#[derive(Clone, Copy, Debug, PartialEq, Eq, Structural)]
pub enum SelfMatchEventKind {
    GameStart,
    Moved,
    GameEnd,
    Abort,
}

impl MapEventKind<SelfMatchEventKind> for SelfMatchEvent {
    fn event_kind(&self) -> (r: SelfMatchEventKind)
        ensures
            r == (match *self {
                SelfMatchEvent::GameStart(_, _, _) => SelfMatchEventKind::GameStart,
                SelfMatchEvent::Moved(_, _) => SelfMatchEventKind::Moved,
                SelfMatchEvent::GameEnd(_) => SelfMatchEventKind::GameEnd,
                SelfMatchEvent::Abort => SelfMatchEventKind::Abort,
            }),
    {
        match self {
            SelfMatchEvent::GameStart(_, _, _) => SelfMatchEventKind::GameStart,
            SelfMatchEvent::Moved(_, _) => SelfMatchEventKind::Moved,
            SelfMatchEvent::GameEnd(_) => SelfMatchEventKind::GameEnd,
            SelfMatchEvent::Abort => SelfMatchEventKind::Abort,
        }
    }
}

impl MaxIndex for SelfMatchEventKind {
    /// The number of `Abort`, the last kind.
    fn max_index() -> (r: usize)
        ensures
            r == 3,
    {
        3
    }
}

/// A queue of events of kinds `K`, in the order they were pushed.
#[derive(Debug)]
pub struct EventQueue<E, K> {
    event_kind: core::marker::PhantomData<K>,
    events: Vec<E>,
}

impl<E, K> View for EventQueue<E, K> {
    type V = Seq<E>;

    closed spec fn view(&self) -> Seq<E> {
        self.events@
    }
}

impl<E: MapEventKind<K>, K> EventQueue<E, K> {
    /// An empty queue.
    pub fn new() -> (r: EventQueue<E, K>)
        ensures
            r@ == Seq::<E>::empty(),
    {
        EventQueue { event_kind: core::marker::PhantomData, events: Vec::new() }
    }

    /// Adds `e` at the end.
    pub fn push(&mut self, e: E)
        ensures
            final(self)@ == old(self)@.push(e),
    {
        self.events.push(e);
    }

    /// Empties the queue.
    pub fn clear(&mut self)
        ensures
            final(self)@ == Seq::<E>::empty(),
    {
        self.events.clear();
    }

    /// Takes every event out, oldest first, leaving the queue empty.
    pub fn drain_events(&mut self) -> (r: Vec<E>)
        ensures
            r@ == old(self)@,
            final(self)@ == Seq::<E>::empty(),
    {
        let mut taken: Vec<E> = Vec::new();
        core::mem::swap(&mut taken, &mut self.events);
        taken
    }

    /// Whether any event waits.
    pub fn has_event(&self) -> (r: bool)
        ensures
            r == (self@.len() > 0),
    {
        self.events.len() > 0
    }
}

} // verus!
