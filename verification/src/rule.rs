//! The rules of shogi: move encodings, board state, move generation and
//! rule checks.
pub mod masks;
pub mod state;
pub mod apply;
pub mod movegen;
pub mod validity;
pub mod mate;
pub mod game;
pub mod oute;
pub mod oute_moves;

pub use self::masks::{
    V_MASK, H_MASK, TOP_MASK, BOTTOM_MASK, RIGHT_MASK, SENTE_NARI_MASK, GOTE_NARI_MASK,
    DENY_MOVE_SENTE_FU_AND_KYOU_MASK, DENY_MOVE_SENTE_KEI_MASK, DENY_MOVE_GOTE_FU_AND_KYOU_MASK,
    DENY_MOVE_GOTE_KEI_MASK, BANMEN_MASK, NYUGYOKU_MASK,
};
pub use self::state::{State, PartialState};

use vstd::prelude::*;
use crate::bitboard::{BitBoard, has_bit, pop_lsb};
use crate::shogi::{
    KomaKind, Teban, Banmen, KomaPosition, KomaSrcPosition, KomaDstToPosition, KomaDstPutPosition,
    MochigomaKind, Move, ObtainKind, Mochigoma, MochigomaCollections, kind_index, kind_of_index,
    is_sente_kind, is_gote_kind, is_nari_kind, nari_of, opposite_of, mochigoma_index, mochigoma_of_index,
    obtain_index, obtain_of_index, obtain_of_kind, mochigoma_of_obtain, mochigoma_of_kind, kind_of_put,
    banmen_at,
};
use crate::error::{ShogiError, InvalidStateError, str_to_string};

verus! {

/// The rules of shogi: move generation, move application and rule checks.
pub struct Rule {}

/// A position: the side to move, the hands and the board.
#[derive(Clone)]
pub struct Kyokumen {
    /// The side to move.
    pub teban: Teban,
    /// The pieces in hand.
    pub mc: MochigomaCollections,
    /// The board.
    pub state: State,
}

/// A square of the board, `x * 9 + y` with (0,0) at the top left seen from sente.
pub type Square = i32;

/// Conversion of a square index `x * 9 + y` to `(x, y)`.
pub trait SquareToPoint: Sized {
    /// Inputs on which the conversion neither overflows nor underflows.
    spec fn point_requires(self) -> bool;

    /// The point the conversion returns.
    spec fn point_of(self) -> (u32, u32);

    fn square_to_point(self) -> (r: (u32, u32))
        requires
            self.point_requires(),
        ensures
            r == self.point_of(),
    ;
}

/// Column of a square: `s * 114 / 1024`, which equals `s / 9` below 512.
pub open spec fn point_x(s: int) -> int {
    s * 114 / 1024
}

pub proof fn lemma_point_x(s: u32)
    requires
        s < 512,
    ensures
        s * 114 / 1024 == s / 9,
        (s * 114 / 1024) * 9 <= s,
        s - (s * 114 / 1024) * 9 == s % 9,
{
    assert(s < 512 ==> (s * 114 / 1024 == s / 9 && (s * 114 / 1024) * 9 <= s && s - (s * 114 / 1024) * 9 == s % 9))
        by (bit_vector);
}

impl SquareToPoint for u32 {
    open spec fn point_requires(self) -> bool {
        self * 114 <= u32::MAX && (self * 114 / 1024) * 9 <= self
    }

    open spec fn point_of(self) -> (u32, u32) {
        ((self * 114 / 1024) as u32, (self - (self * 114 / 1024) * 9) as u32)
    }

    fn square_to_point(self) -> (r: (u32, u32)) {
        let x = self * 114 / 1024;
        let y = self - x * 9;
        (x, y)
    }
}

impl SquareToPoint for i32 {
    open spec fn point_requires(self) -> bool {
        0 <= self && self * 114 <= i32::MAX && (self * 114 / 1024) * 9 <= self
    }

    open spec fn point_of(self) -> (u32, u32) {
        ((self * 114 / 1024) as u32, (self - (self * 114 / 1024) * 9) as u32)
    }

    fn square_to_point(self) -> (r: (u32, u32)) {
        let x = self * 114 / 1024;
        let y = self - x * 9;
        (x as u32, y as u32)
    }
}

/// A square below 512 converts to its column and row.
pub proof fn lemma_square_to_point(s: int)
    requires
        0 <= s < 512,
    ensures
        (s as u32).point_requires(),
        (s as u32).point_of() == ((s / 9) as u32, (s % 9) as u32),
        (s as i32).point_requires(),
        (s as i32).point_of() == ((s / 9) as u32, (s % 9) as u32),
{
    lemma_point_x(s as u32);
}

/// Code of an optional captured piece: 0 for none, index plus one otherwise.
pub open spec fn obtained_code(o: Option<ObtainKind>) -> u32 {
    match o {
        None => 0,
        Some(k) => (obtain_index(k) + 1) as u32,
    }
}

/// Layout of a move on the board: origin in bits 0-6, destination in bits 7-13,
/// promotion in bit 14, captured piece (code) from bit 15.
pub open spec fn encode_to(src: u32, to: u32, nari: bool, code: u32) -> u32 {
    (code << 15u32) | ((if nari { 1u32 } else { 0u32 }) << 14u32) | ((to & 127u32) << 7u32) | (src & 127u32)
}

/// Layout of a drop: kind in bits 0-2, destination in bits 3-9.
pub open spec fn encode_put(to: u32, k: u32) -> u32 {
    ((to & 127u32) << 3u32) | (k & 7u32)
}

pub proof fn lemma_encode_to(src: u32, to: u32, n: u32, code: u32)
    by (bit_vector)
    requires
        code <= 14,
        n <= 1,
    ensures
        ((code << 15u32) | (n << 14u32) | ((to & 127u32) << 7u32) | (src & 127u32)) & 127u32 == src & 127u32,
        (((code << 15u32) | (n << 14u32) | ((to & 127u32) << 7u32) | (src & 127u32)) >> 7u32) & 127u32 == to & 127u32,
        ((((code << 15u32) | (n << 14u32) | ((to & 127u32) << 7u32) | (src & 127u32)) & (1u32 << 14u32)) != 0) == (n == 1),
        ((code << 15u32) | (n << 14u32) | ((to & 127u32) << 7u32) | (src & 127u32)) >> 15u32 == code,
        ((code << 15u32) | (n << 14u32) | ((to & 127u32) << 7u32) | (src & 127u32)) & 0x7fffu32
            == (n << 14u32) | ((to & 127u32) << 7u32) | (src & 127u32),
        ((code << 15u32) | (n << 14u32) | ((to & 127u32) << 7u32) | (src & 127u32)) & 0x7fffu32
            == (0u32 << 15u32) | (n << 14u32) | ((to & 127u32) << 7u32) | (src & 127u32),
        ((0u32 << 15u32) | (n << 14u32) | ((to & 127u32) << 7u32) | (src & 127u32)) >> 15u32 == 0,
{
}

pub proof fn lemma_encode_put(to: u32, k: u32)
    by (bit_vector)
    requires
        k < 7,
    ensures
        (((to & 127u32) << 3u32) | (k & 7u32)) & 7u32 == k,
        (((to & 127u32) << 3u32) | (k & 7u32)) >> 10u32 == 0,
        (((to & 127u32) << 3u32) | (k & 111u32)) == (((to & 127u32) << 3u32) | (k & 7u32)),
        ((((to & 127u32) << 3u32) | (k & 7u32)) >> 3u32) & 127u32 == to & 127u32,
        k & 111u32 == k & 7u32,
{
}

pub proof fn lemma_mask_small(v: u32)
    by (bit_vector)
    requires
        v < 128,
    ensures
        v & 127u32 == v,
{
}

/// The drop `from_parts(k, to)` puts a piece of kind `k` on `to`.
pub proof fn lemma_put_parts(k: MochigomaKind, to: u32)
    requires
        to < 128,
    ensures
        LegalMovePut::from_parts(k, to).dst_spec() == to,
        LegalMovePut::from_parts(k, to).kind_spec() == k,
{
    lemma_encode_put(to, mochigoma_index(k) as u32);
    lemma_mask_small(to);
}

/// A move of a piece on the board, with the piece it captures.
#[derive(Clone, Copy, Debug, PartialEq, Eq, Structural, Hash)]
pub struct LegalMoveTo(u32);

impl LegalMoveTo {
    #[verifier::type_invariant]
    spec fn wf(self) -> bool {
        self.0 >> 15u32 <= 14
    }

    /// Origin square.
    pub closed spec fn src_spec(self) -> u32 {
        self.0 & 127u32
    }

    /// Destination square.
    pub closed spec fn dst_spec(self) -> u32 {
        (self.0 >> 7u32) & 127u32
    }

    /// Whether the piece promotes.
    pub closed spec fn nari_spec(self) -> bool {
        (self.0 & (1u32 << 14u32)) != 0
    }

    /// Code of the captured piece (0 for none).
    pub closed spec fn code_spec(self) -> u32 {
        self.0 >> 15u32
    }

    /// The captured piece.
    pub open spec fn obtained_spec(self) -> Option<ObtainKind> {
        if self.code_spec() == 0 {
            None
        } else {
            Some(obtain_of_index(self.code_spec() - 1))
        }
    }

    /// The move with the given parts, as `new` lays them out.
    pub closed spec fn from_parts(src: u32, to: u32, nari: bool, obtaind: Option<ObtainKind>) -> LegalMoveTo {
        LegalMoveTo(encode_to(src, to, nari, obtained_code(obtaind)))
    }

    /// The move from `src` to `to` (both taken modulo 128), promoting when `nari`,
    /// capturing `obtaind`.
    pub fn new(src: u32, to: u32, nari: bool, obtaind: Option<ObtainKind>) -> (r: LegalMoveTo)
        ensures
            r.src_spec() == src & 127u32,
            r.dst_spec() == to & 127u32,
            r.nari_spec() == nari,
            r.code_spec() == obtained_code(obtaind),
            r.obtained_spec() == obtaind,
            r == LegalMoveTo::from_parts(src, to, nari, obtaind),
    {
        let n: u32 = if nari { 1 } else { 0 };
        let code: u32 = match obtaind {
            None => 0,
            Some(o) => o.to_index() + 1,
        };
        proof {
            lemma_encode_to(src, to, n, code);
        }
        LegalMoveTo(code << 15 | n << 14 | (to & 0b1111111) << 7 | src & 0b1111111)
    }

    /// Origin square.
    pub fn src(&self) -> (r: u32)
        ensures
            r == self.src_spec(),
            r < 128,
    {
        proof {
            lemma_u32_fields(self.0);
        }
        self.0 & 0b1111111
    }

    /// Destination square.
    pub fn dst(&self) -> (r: u32)
        ensures
            r == self.dst_spec(),
            r < 128,
    {
        proof {
            lemma_u32_fields(self.0);
        }
        (self.0 >> 7) & 0b1111111
    }

    /// Whether the piece promotes.
    pub fn is_nari(&self) -> (r: bool)
        ensures
            r == self.nari_spec(),
    {
        (self.0 & 1 << 14) != 0
    }

    /// The captured piece.
    pub fn obtained(&self) -> (r: Option<ObtainKind>)
        ensures
            r == self.obtained_spec(),
    {
        proof {
            use_type_invariant(self);
        }
        let o: u32 = self.0 >> 15;
        if o == 0 {
            None
        } else {
            Some(ObtainKind::kind_from(o - 1))
        }
    }
}

/// A drop of a piece in hand.
#[derive(Clone, Copy, Debug, PartialEq, Eq, Structural, Hash)]
pub struct LegalMovePut(u32);

impl LegalMovePut {
    #[verifier::type_invariant]
    spec fn wf(self) -> bool {
        self.0 & 7u32 < 7 && self.0 >> 10u32 == 0
    }

    /// Destination square.
    pub closed spec fn dst_spec(self) -> u32 {
        (self.0 >> 3u32) & 127u32
    }

    /// Kind dropped.
    pub closed spec fn kind_spec(self) -> MochigomaKind {
        mochigoma_of_index((self.0 & 7u32) as int)
    }

    /// The drop with the given parts, as `new` lays them out.
    pub closed spec fn from_parts(kind: MochigomaKind, to: u32) -> LegalMovePut {
        LegalMovePut(encode_put(to, mochigoma_index(kind) as u32))
    }

    /// A drop of `kind` on `to` (taken modulo 128).
    pub fn new(kind: MochigomaKind, to: u32) -> (r: LegalMovePut)
        ensures
            r.dst_spec() == to & 127u32,
            r.kind_spec() == kind,
            r == LegalMovePut::from_parts(kind, to),
    {
        let k = kind.to_index() as u32;
        proof {
            lemma_encode_put(to, k);
        }
        LegalMovePut((to & 0b1111111) << 3 | k & 0b111)
    }

    /// Destination square.
    pub fn dst(&self) -> (r: u32)
        ensures
            r == self.dst_spec(),
            r < 128,
    {
        proof {
            lemma_u32_fields(self.0);
        }
        (self.0 >> 3) & 0b1111111
    }

    /// Kind dropped.
    pub fn kind(&self) -> (r: MochigomaKind)
        ensures
            r == self.kind_spec(),
    {
        proof {
            use_type_invariant(self);
        }
        MochigomaKind::from_index(self.0 & 0b111)
    }
}

/// A legal move as produced by the move generator.
#[derive(Clone, Copy, Debug, PartialEq, Eq, Structural, Hash)]
pub enum LegalMove {
    To(LegalMoveTo),
    Put(LegalMovePut),
}

/// A move on the board as applied to a position (without the captured piece).
#[derive(Clone, Copy, Debug, PartialEq, Eq, Structural, Hash)]
pub struct AppliedMoveTo(u32);

impl AppliedMoveTo {
    #[verifier::type_invariant]
    spec fn wf(self) -> bool {
        self.0 >> 15u32 == 0
    }

    /// Origin square.
    pub closed spec fn src_spec(self) -> u32 {
        self.0 & 127u32
    }

    /// Destination square.
    pub closed spec fn dst_spec(self) -> u32 {
        (self.0 >> 7u32) & 127u32
    }

    /// Whether the piece promotes.
    pub closed spec fn nari_spec(self) -> bool {
        (self.0 & (1u32 << 14u32)) != 0
    }

    /// The move with the given fields, as every constructor lays them out.
    pub closed spec fn from_fields(src: u32, dst: u32, nari: bool) -> AppliedMoveTo {
        AppliedMoveTo(encode_to(src, dst, nari, 0))
    }

    /// Origin square.
    pub fn src(&self) -> (r: u32)
        ensures
            r == self.src_spec(),
            r < 128,
    {
        proof {
            lemma_u32_fields(self.0);
        }
        self.0 & 0b1111111
    }

    /// Destination square.
    pub fn dst(&self) -> (r: u32)
        ensures
            r == self.dst_spec(),
            r < 128,
    {
        proof {
            lemma_u32_fields(self.0);
        }
        (self.0 >> 7) & 0b1111111
    }

    /// Whether the piece promotes.
    pub fn is_nari(&self) -> (r: bool)
        ensures
            r == self.nari_spec(),
    {
        (self.0 & 1 << 14) != 0
    }

    /// The applied form of a generated move: the capture is dropped.
    pub fn from_legal(m: LegalMoveTo) -> (r: AppliedMoveTo)
        ensures
            r.src_spec() == m.src_spec(),
            r.dst_spec() == m.dst_spec(),
            r.nari_spec() == m.nari_spec(),
            r == AppliedMoveTo::from_fields(m.src_spec(), m.dst_spec(), m.nari_spec()),
    {
        proof {
            use_type_invariant(m);
            reveal_fields_to(m);
            lemma_u32_fields(m.0);
        }
        AppliedMoveTo(m.0 & 0b111111111111111)
    }
}

proof fn reveal_fields_to(m: LegalMoveTo)
    requires
        m.0 >> 15u32 <= 14,
    ensures
        m.0 & 0x7fffu32 == encode_to(m.src_spec(), m.dst_spec(), m.nari_spec(), 0),
        encode_to(m.src_spec(), m.dst_spec(), m.nari_spec(), 0) & 127u32 == m.src_spec(),
        (encode_to(m.src_spec(), m.dst_spec(), m.nari_spec(), 0) >> 7u32) & 127u32 == m.dst_spec(),
        ((encode_to(m.src_spec(), m.dst_spec(), m.nari_spec(), 0) & (1u32 << 14u32)) != 0) == m.nari_spec(),
{
    lemma_u32_fields(m.0);
}

/// Facts about the fields of a packed move word.
pub proof fn lemma_u32_fields(v: u32)
    by (bit_vector)
    ensures
        (v & 127u32) < 128,
        ((v >> 7u32) & 127u32) < 128,
        ((v >> 3u32) & 127u32) < 128,
        (v & 7u32) < 8,
        v >> 15u32 == 0 ==> v == ((0u32 << 15u32) | ((if (v & (1u32 << 14u32)) != 0 { 1u32 } else { 0u32 }) << 14u32)
            | ((((v >> 7u32) & 127u32) & 127u32) << 7u32) | ((v & 127u32) & 127u32)),
        v >> 10u32 == 0 ==> v == (((((v >> 3u32) & 127u32) & 127u32) << 3u32) | ((v & 7u32) & 7u32)),
        (v & 0x7fffu32) >> 15u32 == 0,
        v & 0x7fffu32 == ((0u32 << 15u32) | ((if (v & (1u32 << 14u32)) != 0 { 1u32 } else { 0u32 }) << 14u32)
            | ((((v >> 7u32) & 127u32) & 127u32) << 7u32) | ((v & 127u32) & 127u32)),
        ((0u32 << 15u32) | ((if (v & (1u32 << 14u32)) != 0 { 1u32 } else { 0u32 }) << 14u32)
            | ((((v >> 7u32) & 127u32) & 127u32) << 7u32) | ((v & 127u32) & 127u32)) & 127u32 == v & 127u32,
        ((((0u32 << 15u32) | ((if (v & (1u32 << 14u32)) != 0 { 1u32 } else { 0u32 }) << 14u32)
            | ((((v >> 7u32) & 127u32) & 127u32) << 7u32) | ((v & 127u32) & 127u32)) >> 7u32) & 127u32) == (v >> 7u32) & 127u32,
        (((((0u32 << 15u32) | ((if (v & (1u32 << 14u32)) != 0 { 1u32 } else { 0u32 }) << 14u32)
            | ((((v >> 7u32) & 127u32) & 127u32) << 7u32) | ((v & 127u32) & 127u32)) & (1u32 << 14u32)) != 0)
            == ((v & (1u32 << 14u32)) != 0)),
{
}

/// A drop as applied to a position.
#[derive(Clone, Copy, Debug, PartialEq, Eq, Structural, Hash)]
pub struct AppliedMovePut(u32);

impl AppliedMovePut {
    #[verifier::type_invariant]
    spec fn wf(self) -> bool {
        self.0 & 7u32 < 7 && self.0 >> 10u32 == 0
    }

    /// Destination square.
    pub closed spec fn dst_spec(self) -> u32 {
        (self.0 >> 3u32) & 127u32
    }

    /// Kind dropped.
    pub closed spec fn kind_spec(self) -> MochigomaKind {
        mochigoma_of_index((self.0 & 7u32) as int)
    }

    /// Destination square.
    pub fn dst(&self) -> (r: u32)
        ensures
            r == self.dst_spec(),
            r < 128,
    {
        proof {
            lemma_u32_fields(self.0);
        }
        (self.0 >> 3) & 0b1111111
    }

    /// Kind dropped.
    pub fn kind(&self) -> (r: MochigomaKind)
        ensures
            r == self.kind_spec(),
    {
        proof {
            use_type_invariant(self);
        }
        MochigomaKind::from_index(self.0 & 0b111)
    }

    /// The applied form of a generated drop.
    pub fn from_legal(m: LegalMovePut) -> (r: AppliedMovePut)
        ensures
            r.dst_spec() == m.dst_spec(),
            r.kind_spec() == m.kind_spec(),
            r == AppliedMovePut::from_fields(m.dst_spec(), m.kind_spec()),
    {
        proof {
            use_type_invariant(m);
            lemma_u32_fields(m.0);
            assert(mochigoma_index(m.kind_spec()) == (m.0 & 7u32));
        }
        AppliedMovePut(m.0)
    }
}

/// A move as applied to a position.
#[derive(Clone, Copy, Debug, PartialEq, Eq, Structural, Hash)]
pub enum AppliedMove {
    To(AppliedMoveTo),
    Put(AppliedMovePut),
}


/// The board square `x * 9 + y` of a position given as (column from the right, row from the top), both from 1.
pub open spec fn square_of_position(px: u32, py: u32) -> u32 {
    ((9 - px) * 9 + (py - 1)) as u32
}

/// A coordinate pair within the board (both from 1 to 9).
pub open spec fn valid_position(px: u32, py: u32) -> bool {
    1 <= px <= 9 && 1 <= py <= 9
}

/// Inputs on which converting a position to a square neither overflows nor underflows.
pub open spec fn position_convertible(px: u32, py: u32) -> bool {
    px <= 9 && py >= 1 && (9 - px) * 9 + (py - 1) <= u32::MAX
}

/// Every coordinate of the move lies within the board.
pub open spec fn valid_move(m: Move) -> bool {
    match m {
        Move::To(KomaSrcPosition(sx, sy), KomaDstToPosition(dx, dy, _)) => valid_position(sx, sy) && valid_position(dx, dy),
        Move::Put(_, KomaDstPutPosition(x, y)) => valid_position(x, y),
    }
}

/// Inputs on which converting the move to an applied move neither overflows nor underflows.
pub open spec fn move_convertible(m: Move) -> bool {
    match m {
        Move::To(KomaSrcPosition(sx, sy), KomaDstToPosition(dx, dy, _)) =>
            position_convertible(sx, sy) && position_convertible(dx, dy),
        Move::Put(_, KomaDstPutPosition(x, y)) => position_convertible(x, y),
    }
}

/// The applied move that a move converts to.
pub open spec fn applied_of_move(m: Move) -> AppliedMove {
    match m {
        Move::To(KomaSrcPosition(sx, sy), KomaDstToPosition(dx, dy, n)) =>
            AppliedMove::To(AppliedMoveTo::from_fields(square_of_position(sx, sy), square_of_position(dx, dy), n)),
        Move::Put(k, KomaDstPutPosition(x, y)) =>
            AppliedMove::Put(AppliedMovePut::from_fields(square_of_position(x, y), k)),
    }
}

/// The position (column from the right, row from the top, both from 1) of a square.
pub open spec fn position_x_of_square(s: u32) -> u32 {
    (9 - s * 114 / 1024) as u32
}

pub open spec fn position_y_of_square(s: u32) -> u32 {
    ((s - (s * 114 / 1024) * 9) + 1) as u32
}

impl AppliedMovePut {
    /// The drop with the given fields, as every constructor lays them out.
    pub closed spec fn from_fields(dst: u32, k: MochigomaKind) -> AppliedMovePut {
        AppliedMovePut(encode_put(dst, mochigoma_index(k) as u32))
    }
}

impl AppliedMove {
    /// The applied form of a move.
    pub fn from_move(m: Move) -> (r: AppliedMove)
        requires
            move_convertible(m),
        ensures
            r == applied_of_move(m),
    {
        match m {
            Move::To(KomaSrcPosition(sx, sy), KomaDstToPosition(dx, dy, n)) => {
                let sx = 9 - sx;
                let sy = sy - 1;
                let dx = 9 - dx;
                let dy = dy - 1;
                let src = sx * 9 + sy;
                let dst = dx * 9 + dy;
                let n: u32 = if n { 1 } else { 0 };
                proof {
                    lemma_encode_to(src, dst, n, 0);
                    assert(0u32 << 15u32 == 0u32) by (bit_vector);
                }
                AppliedMove::To(AppliedMoveTo(n << 14 | (dst & 0b1111111) << 7 | src & 0b1111111))
            },
            Move::Put(kind, KomaDstPutPosition(x, y)) => {
                let x = 9 - x;
                let y = y - 1;
                let dst = x * 9 + y;
                let k = kind.to_index() as u32;
                proof {
                    lemma_encode_put(dst, k);
                }
                AppliedMove::Put(AppliedMovePut((dst & 0b1111111) << 3 | k & 111))
            },
        }
    }

    /// The packing invariant of the move word (every value of the type meets it).
    pub closed spec fn packed_ok(self) -> bool {
        match self {
            AppliedMove::To(m) => m.0 >> 15u32 == 0,
            AppliedMove::Put(m) => m.0 & 7u32 < 7 && m.0 >> 10u32 == 0,
        }
    }

    /// Every applied move meets the packing invariant.
    pub fn check_packed(&self)
        ensures
            self.packed_ok(),
    {
        proof {
            match *self {
                AppliedMove::To(m) => { use_type_invariant(m); },
                AppliedMove::Put(m) => { use_type_invariant(m); },
            }
        }
    }

    /// Inputs on which converting back to a `Move` does not underflow.
    pub open spec fn to_move_requires(self) -> bool {
        match self {
            AppliedMove::To(m) => m.src_spec() <= 89 && m.dst_spec() <= 89,
            AppliedMove::Put(m) => m.dst_spec() <= 89,
        }
    }

    /// The move this applied move converts back to.
    pub open spec fn move_of(self) -> Move {
        match self {
            AppliedMove::To(m) => Move::To(
                KomaSrcPosition(position_x_of_square(m.src_spec()), position_y_of_square(m.src_spec())),
                KomaDstToPosition(position_x_of_square(m.dst_spec()), position_y_of_square(m.dst_spec()), m.nari_spec()),
            ),
            AppliedMove::Put(m) => Move::Put(
                m.kind_spec(),
                KomaDstPutPosition(position_x_of_square(m.dst_spec()), position_y_of_square(m.dst_spec())),
            ),
        }
    }

    /// The `Move` this applied move stands for.
    pub fn to_move(self) -> (r: Move)
        requires
            self.to_move_requires(),
        ensures
            r == self.move_of(),
    {
        match self {
            AppliedMove::To(m) => {
                let src = m.src();
                let dst = m.dst();
                let n = m.is_nari();
                proof {
                    lemma_point_x(src);
                    lemma_point_x(dst);
                }
                let (sx, sy) = src.square_to_point();
                let (dx, dy) = dst.square_to_point();
                Move::To(KomaSrcPosition(9 - sx, sy + 1), KomaDstToPosition(9 - dx, dy + 1, n))
            },
            AppliedMove::Put(m) => {
                let dst = m.dst();
                let kind = m.kind();
                proof {
                    lemma_point_x(dst);
                }
                let (dx, dy) = dst.square_to_point();
                Move::Put(kind, KomaDstPutPosition(9 - dx, dy + 1))
            },
        }
    }
}

impl Move {
    /// The applied form of this move.
    pub fn to_applied_move(&self) -> (r: AppliedMove)
        requires
            move_convertible(*self),
        ensures
            r == applied_of_move(*self),
    {
        AppliedMove::from_move(*self)
    }
}

/// A square and its position from 1, both ways.
proof fn lemma_square_position(px: u32, py: u32)
    requires
        valid_position(px, py),
    ensures
        square_of_position(px, py) <= 80,
        position_x_of_square(square_of_position(px, py)) == px,
        position_y_of_square(square_of_position(px, py)) == py,
{
    let s = square_of_position(px, py);
    assert(s == (9 - px) * 9 + (py - 1));
    vstd::arithmetic::div_mod::lemma_fundamental_div_mod_converse(s as int, 9, (9 - px) as int, (py - 1) as int);
    lemma_point_x(s);
}

proof fn lemma_position_square(s: u32)
    requires
        s <= 80,
    ensures
        valid_position(position_x_of_square(s), position_y_of_square(s)),
        square_of_position(position_x_of_square(s), position_y_of_square(s)) == s,
{
    lemma_point_x(s);
    assert(s == (s / 9) * 9 + s % 9) by {
        vstd::arithmetic::div_mod::lemma_fundamental_div_mod(s as int, 9);
    }
}

/// Converting a move on the board to its applied form and back gives the move again.
pub proof fn law_move_applied_roundtrip(m: Move)
    requires
        valid_move(m),
    ensures
        move_convertible(m),
        applied_of_move(m).to_move_requires(),
        applied_of_move(m).move_of() == m,
{
    match m {
        Move::To(KomaSrcPosition(sx, sy), KomaDstToPosition(dx, dy, n)) => {
            lemma_square_position(sx, sy);
            lemma_square_position(dx, dy);
            let src = square_of_position(sx, sy);
            let dst = square_of_position(dx, dy);
            let nn: u32 = if n { 1 } else { 0 };
            lemma_encode_to(src, dst, nn, 0);
            lemma_mask_small(src);
            lemma_mask_small(dst);
            let a = AppliedMoveTo::from_fields(src, dst, n);
            assert(a.src_spec() == src);
            assert(a.dst_spec() == dst);
            assert(a.nari_spec() == n);
        },
        Move::Put(k, KomaDstPutPosition(x, y)) => {
            lemma_square_position(x, y);
            let dst = square_of_position(x, y);
            lemma_encode_put(dst, mochigoma_index(k) as u32);
            lemma_mask_small(dst);
            let a = AppliedMovePut::from_fields(dst, k);
            assert(a.dst_spec() == dst);
            assert(a.kind_spec() == k);
        },
    }
}

/// Converting an applied move with squares on the board to a `Move` and back gives it again.
pub proof fn law_applied_move_roundtrip(a: AppliedMove)
    requires
        a.packed_ok(),
        match a {
            AppliedMove::To(m) => m.src_spec() <= 80 && m.dst_spec() <= 80,
            AppliedMove::Put(m) => m.dst_spec() <= 80,
        },
    ensures
        a.to_move_requires(),
        valid_move(a.move_of()),
        move_convertible(a.move_of()),
        applied_of_move(a.move_of()) == a,
{
    match a {
        AppliedMove::To(m) => {
            lemma_position_square(m.src_spec());
            lemma_position_square(m.dst_spec());
            lemma_u32_fields(m.0);
            lemma_mask_small(m.src_spec());
            lemma_mask_small(m.dst_spec());
        },
        AppliedMove::Put(m) => {
            lemma_position_square(m.dst_spec());
            lemma_u32_fields(m.0);
            lemma_mask_small(m.dst_spec());
            let k = m.kind_spec();
            assert(mochigoma_index(k) == (m.0 & 7u32));
        },
    }
}


/// The applied form of a generated move.
pub open spec fn applied_of_legal(m: LegalMove) -> AppliedMove {
    match m {
        LegalMove::To(mt) => AppliedMove::To(AppliedMoveTo::from_fields(mt.src_spec(), mt.dst_spec(), mt.nari_spec())),
        LegalMove::Put(mp) => AppliedMove::Put(AppliedMovePut::from_fields(mp.dst_spec(), mp.kind_spec())),
    }
}

/// Destination square of a generated move.
pub open spec fn move_dst(m: LegalMove) -> u32 {
    match m {
        LegalMove::To(mt) => mt.dst_spec(),
        LegalMove::Put(mp) => mp.dst_spec(),
    }
}

/// The piece a generated move captures (a drop captures none).
pub open spec fn move_obtained(m: LegalMove) -> Option<ObtainKind> {
    match m {
        LegalMove::To(mt) => mt.obtained_spec(),
        LegalMove::Put(_) => None,
    }
}

/// Whether a generated move promotes (a drop never does).
pub open spec fn move_is_nari(m: LegalMove) -> bool {
    match m {
        LegalMove::To(mt) => mt.nari_spec(),
        LegalMove::Put(_) => false,
    }
}

impl LegalMove {
    /// Destination square.
    pub fn dst(&self) -> (r: u32)
        ensures
            r == move_dst(*self),
            r < 128,
    {
        match self {
            LegalMove::To(m) => m.dst(),
            LegalMove::Put(m) => m.dst(),
        }
    }

    /// The piece captured, if any.
    pub fn obtained(&self) -> (r: Option<ObtainKind>)
        ensures
            r == move_obtained(*self),
    {
        match self {
            LegalMove::To(m) => m.obtained(),
            LegalMove::Put(_) => None,
        }
    }

    /// Whether the move promotes.
    pub fn is_nari(&self) -> (r: bool)
        ensures
            r == move_is_nari(*self),
    {
        match self {
            LegalMove::To(m) => m.is_nari(),
            LegalMove::Put(_) => false,
        }
    }
}

impl LegalMove {
    /// The applied form of this move (the captured piece is dropped).
    pub fn to_applied_move(self) -> (r: AppliedMove)
        ensures
            r == applied_of_legal(self),
    {
        match self {
            LegalMove::To(m) => AppliedMove::To(AppliedMoveTo::from_legal(m)),
            LegalMove::Put(m) => AppliedMove::Put(AppliedMovePut::from_legal(m)),
        }
    }

    /// The `Move` this generated move stands for.
    pub fn to_move(self) -> (r: Move)
        requires
            applied_of_legal(self).to_move_requires(),
        ensures
            r == applied_of_legal(self).move_of(),
    {
        match self {
            LegalMove::To(m) => {
                let src = m.src();
                let dst = m.dst();
                let n = m.is_nari();
                proof {
                    lemma_point_x(src);
                    lemma_point_x(dst);
                    use_type_invariant(m);
                    reveal_fields_to(m);
                }
                let (sx, sy) = src.square_to_point();
                let (dx, dy) = dst.square_to_point();
                Move::To(KomaSrcPosition(9 - sx, sy + 1), KomaDstToPosition(9 - dx, dy + 1, n))
            },
            LegalMove::Put(m) => {
                let dst = m.dst();
                let kind = m.kind();
                let a = AppliedMovePut::from_legal(m);
                proof {
                    lemma_point_x(dst);
                    lemma_u32_fields(a.0);
                }
                let (dx, dy) = dst.square_to_point();
                Move::Put(kind, KomaDstPutPosition(9 - dx, dy + 1))
            },
        }
    }
}


/// Checking that a value is well formed.
pub trait Validate {
    /// Whether the value is well formed.
    fn validate(&self) -> bool;
}

impl Validate for KomaSrcPosition {
    /// Both coordinates lie from 1 to 9.
    fn validate(&self) -> (r: bool)
        ensures
            r == valid_position(self.0, self.1),
    {
        self.0 > 0 && self.0 <= 9 && self.1 > 0 && self.1 <= 9
    }
}

impl Validate for KomaDstToPosition {
    /// Both coordinates lie from 1 to 9.
    fn validate(&self) -> (r: bool)
        ensures
            r == valid_position(self.0, self.1),
    {
        self.0 > 0 && self.0 <= 9 && self.1 > 0 && self.1 <= 9
    }
}

impl Validate for KomaDstPutPosition {
    /// Both coordinates lie from 1 to 9.
    fn validate(&self) -> (r: bool)
        ensures
            r == valid_position(self.0, self.1),
    {
        self.0 > 0 && self.0 <= 9 && self.1 > 0 && self.1 <= 9
    }
}

impl Validate for Move {
    /// Every coordinate of the move lies on the board.
    fn validate(&self) -> (r: bool)
        ensures
            r == valid_move(*self),
    {
        match self {
            Move::To(s, d) => s.validate() && d.validate(),
            Move::Put(_, d) => d.validate(),
        }
    }
}

/// The rows of the starting position, gote's pieces at the top.
pub open spec fn start_grid() -> Seq<Seq<KomaKind>> {
    let b = KomaKind::Blank;
    seq![
        seq![KomaKind::GKyou, KomaKind::GKei, KomaKind::GGin, KomaKind::GKin, KomaKind::GOu, KomaKind::GKin, KomaKind::GGin, KomaKind::GKei, KomaKind::GKyou],
        seq![b, KomaKind::GHisha, b, b, b, b, b, KomaKind::GKaku, b],
        seq![KomaKind::GFu, KomaKind::GFu, KomaKind::GFu, KomaKind::GFu, KomaKind::GFu, KomaKind::GFu, KomaKind::GFu, KomaKind::GFu, KomaKind::GFu],
        seq![b, b, b, b, b, b, b, b, b],
        seq![b, b, b, b, b, b, b, b, b],
        seq![b, b, b, b, b, b, b, b, b],
        seq![KomaKind::SFu, KomaKind::SFu, KomaKind::SFu, KomaKind::SFu, KomaKind::SFu, KomaKind::SFu, KomaKind::SFu, KomaKind::SFu, KomaKind::SFu],
        seq![b, KomaKind::SKaku, b, b, b, b, b, KomaKind::SHisha, b],
        seq![KomaKind::SKyou, KomaKind::SKei, KomaKind::SGin, KomaKind::SKin, KomaKind::SOu, KomaKind::SKin, KomaKind::SGin, KomaKind::SKei, KomaKind::SKyou],
    ]
}

/// The starting position.
pub fn banmen_start_pos() -> (r: Banmen)
    ensures
        crate::shogi::banmen_grid(r.0) == start_grid(),
{
    let b = KomaKind::Blank;
    let gf = KomaKind::GFu;
    let sf = KomaKind::SFu;
    let r = Banmen([
        [KomaKind::GKyou, KomaKind::GKei, KomaKind::GGin, KomaKind::GKin, KomaKind::GOu, KomaKind::GKin, KomaKind::GGin, KomaKind::GKei, KomaKind::GKyou],
        [b, KomaKind::GHisha, b, b, b, b, b, KomaKind::GKaku, b],
        [gf, gf, gf, gf, gf, gf, gf, gf, gf],
        [b, b, b, b, b, b, b, b, b],
        [b, b, b, b, b, b, b, b, b],
        [b, b, b, b, b, b, b, b, b],
        [sf, sf, sf, sf, sf, sf, sf, sf, sf],
        [b, KomaKind::SKaku, b, b, b, b, b, KomaKind::SHisha, b],
        [KomaKind::SKyou, KomaKind::SKei, KomaKind::SGin, KomaKind::SKin, KomaKind::SOu, KomaKind::SKin, KomaKind::SGin, KomaKind::SKei, KomaKind::SKyou],
    ]);
    proof {
        assert forall|y: int| 0 <= y < 9 implies #[trigger] r.0[y]@ =~= start_grid()[y] by {}
        assert(crate::shogi::banmen_grid(r.0) =~= start_grid());
    }
    r
}

/// Whether two boards hold the same pieces on every square.
pub fn banmen_eq(a: &Banmen, b: &Banmen) -> (r: bool)
    ensures
        r == (crate::shogi::banmen_grid(a.0) == crate::shogi::banmen_grid(b.0)),
{
    let mut y: usize = 0;
    while y < 9
        invariant
            y <= 9,
            forall|j: int, i: int| 0 <= j < y && 0 <= i < 9 ==> #[trigger] a.0[j][i] == b.0[j][i],
        decreases 9 - y,
    {
        let mut x: usize = 0;
        while x < 9
            invariant
                x <= 9,
                y < 9,
                forall|j: int, i: int| 0 <= j < y && 0 <= i < 9 ==> #[trigger] a.0[j][i] == b.0[j][i],
                forall|i: int| 0 <= i < x ==> #[trigger] a.0[y as int][i] == b.0[y as int][i],
            decreases 9 - x,
        {
            if a.0[y][x] != b.0[y][x] {
                proof {
                    assert(crate::shogi::banmen_grid(a.0)[y as int][x as int] != crate::shogi::banmen_grid(b.0)[y as int][x as int]);
                }
                return false;
            }
            x = x + 1;
        }
        y = y + 1;
    }
    proof {
        assert forall|j: int| 0 <= j < 9 implies #[trigger] crate::shogi::banmen_grid(a.0)[j] =~= crate::shogi::banmen_grid(b.0)[j] by {}
        assert(crate::shogi::banmen_grid(a.0) =~= crate::shogi::banmen_grid(b.0));
    }
    true
}

} // verus!
