//! Bit masks over the squares of the board.
//!
//! Bit `s` of a square mask stands for the square `s = x * 9 + y`, (0,0) at
//! the top left seen from sente; the candidate patterns are laid out around
//! the square (1,1), bit 10.
use vstd::prelude::*;

verus! {

/// One column of the board.
pub const V_MASK: u128 = 0b111111111;
/// One row of the board.
pub const H_MASK: u128 = 0b000000001_000000001_000000001_000000001_000000001_000000001_000000001_000000001_000000001;
/// The part of a candidate pattern kept for a piece on the top row.
pub const TOP_MASK: u128 = 0b111111100_111111100_111111100;
/// The part of a candidate pattern kept for a piece on the bottom row.
pub const BOTTOM_MASK: u128 = 0b000000111_000000111_000000111;
/// The part of a candidate pattern kept for a piece on the rightmost column.
pub const RIGHT_MASK: u128 = 0b000000000_111111111_111111111;
/// Squares where a sente piece may promote (rows 0 to 2).
pub const SENTE_NARI_MASK: u128 = 0b000000111_000000111_000000111_000000111_000000111_000000111_000000111_000000111_000000111;
/// Squares where a gote piece may promote (rows 6 to 8).
pub const GOTE_NARI_MASK: u128 = 0b111000000_111000000_111000000_111000000_111000000_111000000_111000000_111000000_111000000;
/// Squares a sente pawn or lance may not reach without promoting (row 0).
pub const DENY_MOVE_SENTE_FU_AND_KYOU_MASK: u128 = 0b000000001_000000001_000000001_000000001_000000001_000000001_000000001_000000001_000000001;
/// Squares a sente knight may not reach without promoting (rows 0 and 1).
pub const DENY_MOVE_SENTE_KEI_MASK: u128 = 0b000000011_000000011_000000011_000000011_000000011_000000011_000000011_000000011_000000011;
/// Squares a gote pawn or lance may not reach without promoting (row 8).
pub const DENY_MOVE_GOTE_FU_AND_KYOU_MASK: u128 = 0b100000000_100000000_100000000_100000000_100000000_100000000_100000000_100000000_100000000;
/// Squares a gote knight may not reach without promoting (rows 7 and 8).
pub const DENY_MOVE_GOTE_KEI_MASK: u128 = 0b110000000_110000000_110000000_110000000_110000000_110000000_110000000_110000000_110000000;
/// Every square of the board, one bit up (bits 1 to 81).
pub const BANMEN_MASK: u128 = 0b111111111_111111111_111111111_111111111_111111111_111111111_111111111_111111111_111111111_0;
/// The enemy camp of sente (rows 6 to 8 seen from the other side).
pub const NYUGYOKU_MASK: u128 = 0b111000000_111000000_111000000_111000000_111000000_111000000_111000000_111000000_111000000;

/// The rows the deny masks cover, on the square `x * 9 + y` (row `y`):
/// row 0 for a sente pawn or lance, rows 0 and 1 for a sente knight, row 8
/// for a gote pawn or lance, rows 7 and 8 for a gote knight; the same one bit
/// up for the masks shifted by one.
pub proof fn lemma_deny_rows(x: u128, y: u128)
    by (bit_vector)
    requires
        x < 9,
        y < 9,
    ensures
        (DENY_MOVE_SENTE_FU_AND_KYOU_MASK & (1u128 << (x * 9 + y))) == 0 <==> y != 0,
        (DENY_MOVE_SENTE_KEI_MASK & (1u128 << (x * 9 + y))) == 0 <==> y >= 2,
        (DENY_MOVE_GOTE_FU_AND_KYOU_MASK & (1u128 << (x * 9 + y))) == 0 <==> y != 8,
        (DENY_MOVE_GOTE_KEI_MASK & (1u128 << (x * 9 + y))) == 0 <==> y <= 6,
        ((DENY_MOVE_SENTE_FU_AND_KYOU_MASK << 1u128) & (1u128 << (x * 9 + y + 1))) == 0 <==> y != 0,
        ((DENY_MOVE_SENTE_KEI_MASK << 1u128) & (1u128 << (x * 9 + y + 1))) == 0 <==> y >= 2,
        ((DENY_MOVE_GOTE_FU_AND_KYOU_MASK << 1u128) & (1u128 << (x * 9 + y + 1))) == 0 <==> y != 8,
        ((DENY_MOVE_GOTE_KEI_MASK << 1u128) & (1u128 << (x * 9 + y + 1))) == 0 <==> y <= 6,
{
}

/// The pattern of the squares a piece reaches in one step, centred on bit 10,
/// for the kind with index `i` of one side (0 for the pawn ... 13 for the dragon).
pub open spec fn candidate_bits_spec(i: int) -> u128 {
    if i == 0 { 0b000000000_000000010_000000000 }
    else if i == 2 { 0b000000001_000000000_000000001 }
    else if i == 3 { 0b000001010_000000010_000001010 }
    else if i == 4 { 0b000000110_000001010_000000110 }
    else if i == 7 { 0b000001110_000001010_000001110 }
    else if 8 <= i <= 11 { 0b000000110_000001010_000000110 }
    else if i == 12 { 0b000000100_000001010_000000100 }
    else if i == 13 { 0b000001010_000000000_000001010 }
    else { 0 }
}

/// The one-step pattern of the kind with index `i` (lance, bishop and rook have none).
pub fn candidate_bits(i: usize) -> (r: u128)
    requires
        i < 14,
    ensures
        r == candidate_bits_spec(i as int),
{
    match i {
        0 => 0b000000000_000000010_000000000,
        2 => 0b000000001_000000000_000000001,
        3 => 0b000001010_000000010_000001010,
        4 => 0b000000110_000001010_000000110,
        7 => 0b000001110_000001010_000001110,
        8 | 9 | 10 | 11 => 0b000000110_000001010_000000110,
        12 => 0b000000100_000001010_000000100,
        13 => 0b000001010_000000000_000001010,
        _ => 0,
    }
}

} // verus!
