//! Pieces, sides, board positions, moves and pieces in hand.
use vstd::prelude::*;

verus! {

/// Kind of a piece on the board (`S*` for sente, `G*` for gote, `*N` promoted).
#[derive(Clone, Copy, Debug, PartialEq, Eq, Structural)]
pub enum KomaKind {
    SFu,
    SKyou,
    SKei,
    SGin,
    SKin,
    SKaku,
    SHisha,
    SOu,
    SFuN,
    SKyouN,
    SKeiN,
    SGinN,
    SKakuN,
    SHishaN,
    GFu,
    GKyou,
    GKei,
    GGin,
    GKin,
    GKaku,
    GHisha,
    GOu,
    GFuN,
    GKyouN,
    GKeiN,
    GGinN,
    GKakuN,
    GHishaN,
    Blank,
}

/// Position of a kind in the declaration order of `KomaKind` (0 for `SFu`, 28 for `Blank`).
pub open spec fn kind_index(k: KomaKind) -> int {
    match k {
        KomaKind::SFu => 0,
        KomaKind::SKyou => 1,
        KomaKind::SKei => 2,
        KomaKind::SGin => 3,
        KomaKind::SKin => 4,
        KomaKind::SKaku => 5,
        KomaKind::SHisha => 6,
        KomaKind::SOu => 7,
        KomaKind::SFuN => 8,
        KomaKind::SKyouN => 9,
        KomaKind::SKeiN => 10,
        KomaKind::SGinN => 11,
        KomaKind::SKakuN => 12,
        KomaKind::SHishaN => 13,
        KomaKind::GFu => 14,
        KomaKind::GKyou => 15,
        KomaKind::GKei => 16,
        KomaKind::GGin => 17,
        KomaKind::GKin => 18,
        KomaKind::GKaku => 19,
        KomaKind::GHisha => 20,
        KomaKind::GOu => 21,
        KomaKind::GFuN => 22,
        KomaKind::GKyouN => 23,
        KomaKind::GKeiN => 24,
        KomaKind::GGinN => 25,
        KomaKind::GKakuN => 26,
        KomaKind::GHishaN => 27,
        KomaKind::Blank => 28,
    }
}

/// The kind whose index is `i` (`Blank` for indices out of range).
pub open spec fn kind_of_index(i: int) -> KomaKind {
    if i == 0 { KomaKind::SFu }
    else if i == 1 { KomaKind::SKyou }
    else if i == 2 { KomaKind::SKei }
    else if i == 3 { KomaKind::SGin }
    else if i == 4 { KomaKind::SKin }
    else if i == 5 { KomaKind::SKaku }
    else if i == 6 { KomaKind::SHisha }
    else if i == 7 { KomaKind::SOu }
    else if i == 8 { KomaKind::SFuN }
    else if i == 9 { KomaKind::SKyouN }
    else if i == 10 { KomaKind::SKeiN }
    else if i == 11 { KomaKind::SGinN }
    else if i == 12 { KomaKind::SKakuN }
    else if i == 13 { KomaKind::SHishaN }
    else if i == 14 { KomaKind::GFu }
    else if i == 15 { KomaKind::GKyou }
    else if i == 16 { KomaKind::GKei }
    else if i == 17 { KomaKind::GGin }
    else if i == 18 { KomaKind::GKin }
    else if i == 19 { KomaKind::GKaku }
    else if i == 20 { KomaKind::GHisha }
    else if i == 21 { KomaKind::GOu }
    else if i == 22 { KomaKind::GFuN }
    else if i == 23 { KomaKind::GKyouN }
    else if i == 24 { KomaKind::GKeiN }
    else if i == 25 { KomaKind::GGinN }
    else if i == 26 { KomaKind::GKakuN }
    else if i == 27 { KomaKind::GHishaN }
    else { KomaKind::Blank }
}

pub proof fn lemma_kind_index(k: KomaKind)
    ensures
        0 <= kind_index(k) <= 28,
        kind_of_index(kind_index(k)) == k,
{
}

/// A piece of the sente side.
pub open spec fn is_sente_kind(k: KomaKind) -> bool {
    kind_index(k) < 14
}

/// A piece of the gote side.
pub open spec fn is_gote_kind(k: KomaKind) -> bool {
    14 <= kind_index(k) < 28
}

/// A promoted piece of either side.
pub open spec fn is_nari_kind(k: KomaKind) -> bool {
    (8 <= kind_index(k) < 14) || (22 <= kind_index(k) < 28)
}

/// What a piece becomes when it promotes; pieces that cannot promote stay as they are.
pub open spec fn nari_of(k: KomaKind) -> KomaKind {
    match k {
        KomaKind::SFu => KomaKind::SFuN,
        KomaKind::SKyou => KomaKind::SKyouN,
        KomaKind::SKei => KomaKind::SKeiN,
        KomaKind::SGin => KomaKind::SGinN,
        KomaKind::SHisha => KomaKind::SHishaN,
        KomaKind::SKaku => KomaKind::SKakuN,
        KomaKind::GFu => KomaKind::GFuN,
        KomaKind::GKyou => KomaKind::GKyouN,
        KomaKind::GKei => KomaKind::GKeiN,
        KomaKind::GGin => KomaKind::GGinN,
        KomaKind::GHisha => KomaKind::GHishaN,
        KomaKind::GKaku => KomaKind::GKakuN,
        _ => k,
    }
}

impl KomaKind {
    /// Index of this kind in declaration order.
    pub fn to_index(&self) -> (r: usize)
        ensures
            r == kind_index(*self),
    {
        match *self {
            KomaKind::SFu => 0,
            KomaKind::SKyou => 1,
            KomaKind::SKei => 2,
            KomaKind::SGin => 3,
            KomaKind::SKin => 4,
            KomaKind::SKaku => 5,
            KomaKind::SHisha => 6,
            KomaKind::SOu => 7,
            KomaKind::SFuN => 8,
            KomaKind::SKyouN => 9,
            KomaKind::SKeiN => 10,
            KomaKind::SGinN => 11,
            KomaKind::SKakuN => 12,
            KomaKind::SHishaN => 13,
            KomaKind::GFu => 14,
            KomaKind::GKyou => 15,
            KomaKind::GKei => 16,
            KomaKind::GGin => 17,
            KomaKind::GKin => 18,
            KomaKind::GKaku => 19,
            KomaKind::GHisha => 20,
            KomaKind::GOu => 21,
            KomaKind::GFuN => 22,
            KomaKind::GKyouN => 23,
            KomaKind::GKeiN => 24,
            KomaKind::GGinN => 25,
            KomaKind::GKakuN => 26,
            KomaKind::GHishaN => 27,
            KomaKind::Blank => 28,
        }
    }

    /// The promoted kind of this piece (unchanged when it cannot promote).
    pub fn to_nari(&self) -> (r: KomaKind)
        ensures
            r == nari_of(*self),
    {
        match *self {
            KomaKind::SFu => KomaKind::SFuN,
            KomaKind::SKyou => KomaKind::SKyouN,
            KomaKind::SKei => KomaKind::SKeiN,
            KomaKind::SGin => KomaKind::SGinN,
            KomaKind::SHisha => KomaKind::SHishaN,
            KomaKind::SKaku => KomaKind::SKakuN,
            KomaKind::GFu => KomaKind::GFuN,
            KomaKind::GKyou => KomaKind::GKyouN,
            KomaKind::GKei => KomaKind::GKeiN,
            KomaKind::GGin => KomaKind::GGinN,
            KomaKind::GHisha => KomaKind::GHishaN,
            KomaKind::GKaku => KomaKind::GKakuN,
            kind => kind,
        }
    }

    /// Whether the piece is a promoted one.
    pub fn is_nari(&self) -> (r: bool)
        ensures
            r == is_nari_kind(*self),
    {
        match *self {
            KomaKind::SFuN | KomaKind::SKyouN | KomaKind::SKeiN | KomaKind::SGinN
            | KomaKind::SHishaN | KomaKind::SKakuN | KomaKind::GFuN | KomaKind::GKyouN
            | KomaKind::GKeiN | KomaKind::GGinN | KomaKind::GHishaN | KomaKind::GKakuN => true,
            _ => false,
        }
    }

    /// The largest index of `KomaKind`.
    pub fn max_index() -> (r: usize)
        ensures
            r == kind_index(KomaKind::Blank),
    {
        28
    }
}

/// Promotion is idempotent, and a promotable piece is promoted afterwards.
pub proof fn lemma_to_nari(k: KomaKind)
    ensures
        nari_of(nari_of(k)) == nari_of(k),
        is_nari_kind(k) ==> nari_of(k) == k,
        is_sente_kind(k) == is_sente_kind(nari_of(k)),
        is_gote_kind(k) == is_gote_kind(nari_of(k)),
        nari_of(k) != k ==> is_nari_kind(nari_of(k)),
{
}

/// The rows of a board array as sequences.
pub open spec fn banmen_grid(a: [[KomaKind; 9]; 9]) -> Seq<Seq<KomaKind>> {
    Seq::new(9, |y: int| a[y]@)
}

/// The 9 x 9 board, indexed `[y][x]` with (0,0) at the top left seen from sente.
#[derive(Clone, Copy, Debug)]
pub struct Banmen(pub [[KomaKind; 9]; 9]);

/// The kind standing at column `x` and row `y` (both counted from 0 at the top left).
pub open spec fn banmen_at(b: Banmen, x: int, y: int) -> KomaKind {
    b.0[y][x]
}

/// Side to move.
#[derive(Clone, Copy, Debug, PartialEq, Eq, Structural)]
pub enum Teban {
    Sente,
    Gote,
}

pub open spec fn opposite_of(t: Teban) -> Teban {
    match t {
        Teban::Sente => Teban::Gote,
        Teban::Gote => Teban::Sente,
    }
}

impl Teban {
    /// The other side.
    pub fn opposite(&self) -> (r: Teban)
        ensures
            r == opposite_of(*self),
            r != *self,
    {
        match *self {
            Teban::Sente => Teban::Gote,
            Teban::Gote => Teban::Sente,
        }
    }
}

/// Taking the other side twice gives back the side.
pub proof fn lemma_opposite_involutive(t: Teban)
    ensures
        opposite_of(opposite_of(t)) == t,
        opposite_of(t) != t,
{
}

/// `KomaPosition(x, y)`: `x` counted from 1 at the right, `y` from 1 at the top.
#[derive(Clone, Copy, Debug, PartialEq, Eq, Structural)]
pub struct KomaPosition(pub u32, pub u32);

/// Origin of a move: `x` counted from 1 at the right, `y` from 1 at the top.
#[derive(Clone, Copy, Debug, PartialEq, Eq, Structural)]
pub struct KomaSrcPosition(pub u32, pub u32);

/// Destination of a move and whether the piece promotes.
#[derive(Clone, Copy, Debug, PartialEq, Eq, Structural)]
pub struct KomaDstToPosition(pub u32, pub u32, pub bool);

/// Destination of a drop.
#[derive(Clone, Copy, Debug, PartialEq, Eq, Structural)]
pub struct KomaDstPutPosition(pub u32, pub u32);

/// Kind of a piece in hand.
#[derive(Clone, Copy, Debug, PartialEq, Eq, Structural)]
pub enum MochigomaKind {
    Fu,
    Kyou,
    Kei,
    Gin,
    Kin,
    Kaku,
    Hisha,
}

pub open spec fn mochigoma_index(k: MochigomaKind) -> int {
    match k {
        MochigomaKind::Fu => 0,
        MochigomaKind::Kyou => 1,
        MochigomaKind::Kei => 2,
        MochigomaKind::Gin => 3,
        MochigomaKind::Kin => 4,
        MochigomaKind::Kaku => 5,
        MochigomaKind::Hisha => 6,
    }
}

pub open spec fn mochigoma_of_index(i: int) -> MochigomaKind {
    if i == 0 { MochigomaKind::Fu }
    else if i == 1 { MochigomaKind::Kyou }
    else if i == 2 { MochigomaKind::Kei }
    else if i == 3 { MochigomaKind::Gin }
    else if i == 4 { MochigomaKind::Kin }
    else if i == 5 { MochigomaKind::Kaku }
    else { MochigomaKind::Hisha }
}

impl MochigomaKind {
    /// Index of this kind in declaration order.
    pub fn to_index(&self) -> (r: usize)
        ensures
            r == mochigoma_index(*self),
            r < 7,
    {
        match *self {
            MochigomaKind::Fu => 0,
            MochigomaKind::Kyou => 1,
            MochigomaKind::Kei => 2,
            MochigomaKind::Gin => 3,
            MochigomaKind::Kin => 4,
            MochigomaKind::Kaku => 5,
            MochigomaKind::Hisha => 6,
        }
    }

    /// The kind whose index is `i`.
    pub fn from_index(i: u32) -> (r: MochigomaKind)
        requires
            i < 7,
        ensures
            r == mochigoma_of_index(i as int),
            mochigoma_index(r) == i,
    {
        if i == 0 { MochigomaKind::Fu }
        else if i == 1 { MochigomaKind::Kyou }
        else if i == 2 { MochigomaKind::Kei }
        else if i == 3 { MochigomaKind::Gin }
        else if i == 4 { MochigomaKind::Kin }
        else if i == 5 { MochigomaKind::Kaku }
        else { MochigomaKind::Hisha }
    }

    /// The largest index of `MochigomaKind`.
    pub fn max_index() -> (r: usize)
        ensures
            r == mochigoma_index(MochigomaKind::Hisha),
    {
        6
    }
}

/// All kinds of pieces in hand, in index order.
pub const MOCHIGOMA_KINDS: [MochigomaKind; 7] = [
    MochigomaKind::Fu,
    MochigomaKind::Kyou,
    MochigomaKind::Kei,
    MochigomaKind::Gin,
    MochigomaKind::Kin,
    MochigomaKind::Kaku,
    MochigomaKind::Hisha,
];

/// A move: moving a piece on the board, or dropping a piece in hand.
#[derive(Clone, Copy, Debug, PartialEq, Eq, Structural)]
pub enum Move {
    To(KomaSrcPosition, KomaDstToPosition),
    Put(MochigomaKind, KomaDstPutPosition),
}

/// Kind of a captured piece.
#[derive(Clone, Copy, Debug, PartialEq, Eq, Structural)]
pub enum ObtainKind {
    Fu,
    Kyou,
    Kei,
    Gin,
    Kin,
    Kaku,
    Hisha,
    Ou,
    FuN,
    KyouN,
    KeiN,
    GinN,
    KakuN,
    HishaN,
}

pub open spec fn obtain_index(o: ObtainKind) -> int {
    match o {
        ObtainKind::Fu => 0,
        ObtainKind::Kyou => 1,
        ObtainKind::Kei => 2,
        ObtainKind::Gin => 3,
        ObtainKind::Kin => 4,
        ObtainKind::Kaku => 5,
        ObtainKind::Hisha => 6,
        ObtainKind::Ou => 7,
        ObtainKind::FuN => 8,
        ObtainKind::KyouN => 9,
        ObtainKind::KeiN => 10,
        ObtainKind::GinN => 11,
        ObtainKind::KakuN => 12,
        ObtainKind::HishaN => 13,
    }
}

pub open spec fn obtain_of_index(i: int) -> ObtainKind {
    if i == 0 { ObtainKind::Fu }
    else if i == 1 { ObtainKind::Kyou }
    else if i == 2 { ObtainKind::Kei }
    else if i == 3 { ObtainKind::Gin }
    else if i == 4 { ObtainKind::Kin }
    else if i == 5 { ObtainKind::Kaku }
    else if i == 6 { ObtainKind::Hisha }
    else if i == 7 { ObtainKind::Ou }
    else if i == 8 { ObtainKind::FuN }
    else if i == 9 { ObtainKind::KyouN }
    else if i == 10 { ObtainKind::KeiN }
    else if i == 11 { ObtainKind::GinN }
    else if i == 12 { ObtainKind::KakuN }
    else { ObtainKind::HishaN }
}

impl ObtainKind {
    /// Index of this kind in declaration order.
    pub fn to_index(&self) -> (r: u32)
        ensures
            r == obtain_index(*self),
            r < 14,
    {
        match *self {
            ObtainKind::Fu => 0,
            ObtainKind::Kyou => 1,
            ObtainKind::Kei => 2,
            ObtainKind::Gin => 3,
            ObtainKind::Kin => 4,
            ObtainKind::Kaku => 5,
            ObtainKind::Hisha => 6,
            ObtainKind::Ou => 7,
            ObtainKind::FuN => 8,
            ObtainKind::KyouN => 9,
            ObtainKind::KeiN => 10,
            ObtainKind::GinN => 11,
            ObtainKind::KakuN => 12,
            ObtainKind::HishaN => 13,
        }
    }

    /// The kind whose index is `k`.
    pub fn kind_from(k: u32) -> (r: ObtainKind)
        requires
            k < 14,
        ensures
            r == obtain_of_index(k as int),
            obtain_index(r) == k,
    {
        if k == 0 { ObtainKind::Fu }
        else if k == 1 { ObtainKind::Kyou }
        else if k == 2 { ObtainKind::Kei }
        else if k == 3 { ObtainKind::Gin }
        else if k == 4 { ObtainKind::Kin }
        else if k == 5 { ObtainKind::Kaku }
        else if k == 6 { ObtainKind::Hisha }
        else if k == 7 { ObtainKind::Ou }
        else if k == 8 { ObtainKind::FuN }
        else if k == 9 { ObtainKind::KyouN }
        else if k == 10 { ObtainKind::KeiN }
        else if k == 11 { ObtainKind::GinN }
        else if k == 12 { ObtainKind::KakuN }
        else { ObtainKind::HishaN }
    }
}

/// The captured kind of a board kind: its index modulo the side (`None` for `Blank`).
pub open spec fn obtain_of_kind(k: KomaKind) -> Option<ObtainKind> {
    if kind_index(k) < 14 {
        Some(obtain_of_index(kind_index(k)))
    } else if kind_index(k) < 28 {
        Some(obtain_of_index(kind_index(k) - 14))
    } else {
        None
    }
}

/// The kind that goes to the hand when a board kind is captured (`None` for kings and `Blank`).
pub open spec fn mochigoma_of_obtain(o: ObtainKind) -> Option<MochigomaKind> {
    match o {
        ObtainKind::Fu | ObtainKind::FuN => Some(MochigomaKind::Fu),
        ObtainKind::Kyou | ObtainKind::KyouN => Some(MochigomaKind::Kyou),
        ObtainKind::Kei | ObtainKind::KeiN => Some(MochigomaKind::Kei),
        ObtainKind::Gin | ObtainKind::GinN => Some(MochigomaKind::Gin),
        ObtainKind::Kin => Some(MochigomaKind::Kin),
        ObtainKind::Kaku | ObtainKind::KakuN => Some(MochigomaKind::Kaku),
        ObtainKind::Hisha | ObtainKind::HishaN => Some(MochigomaKind::Hisha),
        ObtainKind::Ou => None,
    }
}

pub open spec fn mochigoma_of_kind(k: KomaKind) -> Option<MochigomaKind> {
    match obtain_of_kind(k) {
        Some(o) => mochigoma_of_obtain(o),
        None => None,
    }
}

/// The board kind of a piece of a side, as dropped from the hand.
pub open spec fn kind_of_put(t: Teban, k: MochigomaKind) -> KomaKind {
    match t {
        Teban::Sente => kind_of_index(mochigoma_index(k)),
        Teban::Gote => kind_of_index(mochigoma_index(k) + 14),
    }
}

impl ObtainKind {
    /// The captured kind of a board kind; `Blank` is refused.
    pub fn try_from_koma(kind: KomaKind) -> (r: Result<ObtainKind, crate::error::TypeConvertError>)
        ensures
            r matches Ok(o) ==> obtain_of_kind(kind) == Some(o),
            r is Err <==> kind == KomaKind::Blank,
            r matches Err(e) ==> e matches crate::error::TypeConvertError::LogicError(_),
    {
        let i = kind.to_index();
        if i < 14 {
            Ok(ObtainKind::kind_from(i as u32))
        } else if i < 28 {
            Ok(ObtainKind::kind_from((i - 14) as u32))
        } else {
            Err(crate::error::TypeConvertError::LogicError(
                crate::error::str_to_string("Can not  to convert Blank to ObtainKind."),
            ))
        }
    }
}

impl MochigomaKind {
    /// The kind a captured board kind becomes in hand; kings and `Blank` are refused.
    pub fn try_from_koma(kind: KomaKind) -> (r: Result<MochigomaKind, crate::error::TypeConvertError>)
        ensures
            r matches Ok(m) ==> mochigoma_of_kind(kind) == Some(m),
            r is Err <==> mochigoma_of_kind(kind) is None,
            r is Err <==> (kind == KomaKind::Blank || kind == KomaKind::SOu || kind == KomaKind::GOu),
            r matches Err(e) ==> e matches crate::error::TypeConvertError::LogicError(_),
    {
        match kind {
            KomaKind::SFu | KomaKind::SFuN | KomaKind::GFu | KomaKind::GFuN => Ok(MochigomaKind::Fu),
            KomaKind::SKyou | KomaKind::SKyouN | KomaKind::GKyou | KomaKind::GKyouN => Ok(MochigomaKind::Kyou),
            KomaKind::SKei | KomaKind::SKeiN | KomaKind::GKei | KomaKind::GKeiN => Ok(MochigomaKind::Kei),
            KomaKind::SGin | KomaKind::SGinN | KomaKind::GGin | KomaKind::GGinN => Ok(MochigomaKind::Gin),
            KomaKind::SKin | KomaKind::GKin => Ok(MochigomaKind::Kin),
            KomaKind::SKaku | KomaKind::SKakuN | KomaKind::GKaku | KomaKind::GKakuN => Ok(MochigomaKind::Kaku),
            KomaKind::SHisha | KomaKind::SHishaN | KomaKind::GHisha | KomaKind::GHishaN => Ok(MochigomaKind::Hisha),
            KomaKind::SOu | KomaKind::GOu => Err(crate::error::TypeConvertError::LogicError(
                crate::error::str_to_string("Can not  to convert SOu or GOu to MochigomaKind."),
            )),
            KomaKind::Blank => Err(crate::error::TypeConvertError::LogicError(
                crate::error::str_to_string("Can not  to convert Blank to MochigomaKind."),
            )),
        }
    }

    /// The kind a captured piece becomes in hand; kings are refused.
    pub fn try_from_obtain(o: ObtainKind) -> (r: Result<MochigomaKind, crate::error::TypeConvertError>)
        ensures
            r matches Ok(m) ==> mochigoma_of_obtain(o) == Some(m),
            r is Err <==> o == ObtainKind::Ou,
    {
        match o {
            ObtainKind::Fu | ObtainKind::FuN => Ok(MochigomaKind::Fu),
            ObtainKind::Kyou | ObtainKind::KyouN => Ok(MochigomaKind::Kyou),
            ObtainKind::Kei | ObtainKind::KeiN => Ok(MochigomaKind::Kei),
            ObtainKind::Gin | ObtainKind::GinN => Ok(MochigomaKind::Gin),
            ObtainKind::Kin => Ok(MochigomaKind::Kin),
            ObtainKind::Kaku | ObtainKind::KakuN => Ok(MochigomaKind::Kaku),
            ObtainKind::Hisha | ObtainKind::HishaN => Ok(MochigomaKind::Hisha),
            ObtainKind::Ou => Err(crate::error::TypeConvertError::LogicError(
                crate::error::str_to_string("Can not  to convert Ou to MochigomaKind."),
            )),
        }
    }
}

impl KomaKind {
    /// The board kind of a piece dropped by side `t`.
    pub fn from_put(t: Teban, k: MochigomaKind) -> (r: KomaKind)
        ensures
            r == kind_of_put(t, k),
            t == Teban::Sente ==> kind_index(r) == mochigoma_index(k),
            t == Teban::Gote ==> kind_index(r) == mochigoma_index(k) + 14,
    {
        match t {
            Teban::Sente => match k {
                MochigomaKind::Fu => KomaKind::SFu,
                MochigomaKind::Kyou => KomaKind::SKyou,
                MochigomaKind::Kei => KomaKind::SKei,
                MochigomaKind::Gin => KomaKind::SGin,
                MochigomaKind::Kin => KomaKind::SKin,
                MochigomaKind::Kaku => KomaKind::SKaku,
                MochigomaKind::Hisha => KomaKind::SHisha,
            },
            Teban::Gote => match k {
                MochigomaKind::Fu => KomaKind::GFu,
                MochigomaKind::Kyou => KomaKind::GKyou,
                MochigomaKind::Kei => KomaKind::GKei,
                MochigomaKind::Gin => KomaKind::GGin,
                MochigomaKind::Kin => KomaKind::GKin,
                MochigomaKind::Kaku => KomaKind::GKaku,
                MochigomaKind::Hisha => KomaKind::GHisha,
            },
        }
    }
}

/// The pieces in hand of one side: a count for each `MochigomaKind`.
#[derive(Clone, Copy, Debug)]
pub struct Mochigoma {
    counts: [u32; 7],
}

impl View for Mochigoma {
    type V = Seq<u32>;

    closed spec fn view(&self) -> Seq<u32> {
        self.counts@
    }
}

pub proof fn lemma_mochigoma_len(m: Mochigoma)
    ensures
        m@.len() == 7,
{
}

impl Mochigoma {
    /// No pieces in hand.
    pub fn new() -> (r: Mochigoma)
        ensures
            r@ == Seq::new(7, |i: int| 0u32),
    {
        let r = Mochigoma { counts: [0u32; 7] };
        assert(r@ =~= Seq::new(7, |i: int| 0u32));
        r
    }

    /// Number of pieces of kind `k` in hand.
    pub fn get(&self, k: MochigomaKind) -> (r: u32)
        ensures
            r == self@[mochigoma_index(k)],
    {
        self.counts[k.to_index()]
    }

    /// Sets the number of pieces of kind `k` in hand.
    pub fn insert(&mut self, k: MochigomaKind, c: u32)
        ensures
            final(self)@ == old(self)@.update(mochigoma_index(k), c),
    {
        self.counts[k.to_index()] = c;
    }

    /// Adds one piece of kind `k` to the hand.
    pub fn put(&mut self, k: MochigomaKind)
        requires
            old(self)@[mochigoma_index(k)] < u32::MAX,
        ensures
            final(self)@ == old(self)@.update(mochigoma_index(k), (old(self)@[mochigoma_index(k)] + 1) as u32),
    {
        let i = k.to_index();
        let c = self.counts[i];
        self.counts[i] = c + 1;
    }

    /// Whether every count is zero.
    pub fn is_empty(&self) -> (r: bool)
        ensures
            r <==> (forall|i: int| 0 <= i < 7 ==> self@[i] == 0),
    {
        let mut i: usize = 0;
        while i < 7
            invariant
                0 <= i <= 7,
                self@.len() == 7,
                forall|j: int| 0 <= j < i ==> self@[j] == 0,
            decreases 7 - i,
        {
            if self.counts[i] != 0 {
                return false;
            }
            i += 1;
        }
        true
    }

    /// Sum of the counts, weighted by `w` for rooks and bishops and by 1 otherwise.
    pub fn weighted_count(&self, w: u32) -> (r: u64)
        requires
            w <= 5,
        ensures
            r == mochigoma_points(self@, w as int, 7),
    {
        let mut i: usize = 0;
        let mut acc: u64 = 0;
        while i < 7
            invariant
                0 <= i <= 7,
                self@.len() == 7,
                w <= 5,
                acc == mochigoma_points(self@, w as int, i as nat),
                acc <= i * 5 * u32::MAX,
            decreases 7 - i,
        {
            let c = self.counts[i] as u64;
            if i == 5 || i == 6 {
                assert(c * (w as u64) <= 5 * u32::MAX) by (nonlinear_arith)
                    requires
                        c <= u32::MAX,
                        w <= 5,
                ;
                acc = acc + c * (w as u64);
            } else {
                acc = acc + c;
            }
            i += 1;
        }
        acc
    }
}

/// Sum over the first `n` counts, with weight `w` for bishops (index 5) and rooks (index 6).
pub open spec fn mochigoma_points(s: Seq<u32>, w: int, n: nat) -> int
    decreases n,
{
    if n == 0 {
        0
    } else {
        mochigoma_points(s, w, (n - 1) as nat) + (if n - 1 == 5 || n - 1 == 6 { s[n - 1] * w } else { s[n - 1] as int })
    }
}

/// Pieces in hand of both sides.
#[derive(Clone, Copy, Debug)]
pub enum MochigomaCollections {
    /// Neither side has pieces in hand.
    Empty,
    /// Sente's and gote's pieces in hand.
    Pair(Mochigoma, Mochigoma),
}

impl MochigomaCollections {
    /// Both hands; `Empty` when neither hand holds any piece.
    pub fn new(ms: Mochigoma, mg: Mochigoma) -> (r: MochigomaCollections)
        ensures
            ((forall|i: int| 0 <= i < 7 ==> ms@[i] == 0) && (forall|i: int| 0 <= i < 7 ==> mg@[i] == 0))
                ==> r == MochigomaCollections::Empty,
            !((forall|i: int| 0 <= i < 7 ==> ms@[i] == 0) && (forall|i: int| 0 <= i < 7 ==> mg@[i] == 0))
                ==> r == MochigomaCollections::Pair(ms, mg),
    {
        if ms.is_empty() && mg.is_empty() {
            MochigomaCollections::Empty
        } else {
            MochigomaCollections::Pair(ms, mg)
        }
    }

    /// Whether neither side has any piece in hand.
    pub fn is_empty(&self) -> (r: bool)
        ensures
            r <==> match *self {
                MochigomaCollections::Empty => true,
                MochigomaCollections::Pair(ms, mg) =>
                    (forall|i: int| 0 <= i < 7 ==> ms@[i] == 0) && (forall|i: int| 0 <= i < 7 ==> mg@[i] == 0),
            },
    {
        match self {
            MochigomaCollections::Empty => true,
            MochigomaCollections::Pair(ms, mg) => ms.is_empty() && mg.is_empty(),
        }
    }
}

} // verus!
