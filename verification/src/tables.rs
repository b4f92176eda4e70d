//! Material values and piece-square tables.
//!
//! Each table is written from White's side of the board: row 0 is the eighth
//! rank, row 7 the first, and column 0 is the a-file. Black reads the same
//! table with the rows in reverse order.

use vstd::prelude::*;
use crate::piece::{Color, Kind};

verus! {

pub const PAWN_TABLE: [[i8; 8]; 8] = [
    [0, 0, 0, 0, 0, 0, 0, 0],
    [5, 5, 5, 5, 5, 5, 5, 5],
    [1, 1, 2, 4, 4, 2, 1, 1],
    [0, 0, 1, 3, 3, 1, 0, 0],
    [0, 0, 0, 2, 2, 0, 0, 0],
    [0, 0, -1, 0, 0, -1, 0, 0],
    [1, 1, 1, -2, -2, 1, 1, 1],
    [0, 0, 0, 0, 0, 0, 0, 0],
];

pub const KNIGHT_TABLE: [[i8; 8]; 8] = [
    [-5, -4, -3, -3, -3, -3, -4, -5],
    [-4, -2, 0, 0, 0, 0, -2, -4],
    [-3, 0, 1, 1, 1, 1, 0, -3],
    [-3, 1, 2, 2, 2, 1, 0, -3],
    [-3, 1, 2, 2, 2, 1, 0, -3],
    [-3, 0, 1, 1, 1, 1, 0, -3],
    [-4, -2, 0, 0, 0, 0, -2, -4],
    [-5, -4, -3, -3, -3, -3, -4, -5],
];

pub const BISHOP_TABLE: [[i8; 8]; 8] = [
    [-4, -2, -2, -2, -2, -2, -2, -4],
    [-2, 0, 0, 0, 0, 0, 0, -2],
    [-2, 0, 1, 2, 2, 2, 0, -2],
    [-2, 1, 1, 2, 2, 2, 1, -2],
    [-2, 0, 2, 2, 2, 2, 0, -2],
    [-2, 2, 2, 2, 2, 2, 2, -2],
    [-2, 1, 0, 0, 0, 0, 1, -2],
    [-4, -2, -2, -2, -2, -2, -2, -4],
];

pub const ROOK_TABLE: [[i8; 8]; 8] = [
    [0, 0, 0, 0, 0, 0, 0, 0],
    [1, 2, 2, 2, 2, 2, 2, 1],
    [-1, 0, 0, 0, 0, 0, 0, -1],
    [-1, 0, 0, 0, 0, 0, 0, -1],
    [-1, 0, 0, 0, 0, 0, 0, -1],
    [-1, 0, 0, 0, 0, 0, 0, -1],
    [-1, 0, 0, 0, 0, 0, 0, -1],
    [0, 0, 0, 1, 1, 0, 0, 0],
];

pub const QUEEN_TABLE: [[i8; 8]; 8] = [
    [-4, -2, -2, -1, -1, -2, -2, -4],
    [-2, 0, 0, 0, 0, 0, 0, -2],
    [-2, 0, 1, 1, 1, 1, 0, -2],
    [-1, 0, 1, 1, 1, 1, 0, -1],
    [0, 0, 1, 1, 1, 1, 0, -1],
    [-2, 1, 1, 1, 1, 1, 0, -2],
    [-2, 0, 1, 0, 0, 0, 0, -2],
    [-4, -2, -2, -1, -1, -2, -2, -4],
];

pub const KING_TABLE: [[i8; 8]; 8] = [
    [-3, -4, -4, -5, -5, -4, -4, -3],
    [-3, -4, -4, -5, -5, -4, -4, -3],
    [-3, -4, -4, -5, -5, -4, -4, -3],
    [-3, -4, -4, -5, -5, -4, -4, -3],
    [-2, -3, -3, -4, -4, -3, -3, -2],
    [-1, -2, -2, -2, -2, -2, -2, -1],
    [2, 2, 0, 0, 0, 0, 2, 2],
    [2, 3, 1, 0, 0, 1, 3, 2],
];

/// The material value of a piece of the given kind.
pub open spec fn base_value(kind: Kind) -> int {
    match kind {
        Kind::Pawn => 10,
        Kind::Knight => 30,
        Kind::Bishop => 30,
        Kind::Rook => 50,
        Kind::Queen => 90,
        Kind::King => 900,
    }
}

/// The piece-square table of the given kind, from White's side.
pub open spec fn table_of(kind: Kind) -> [[i8; 8]; 8] {
    match kind {
        Kind::Pawn => PAWN_TABLE,
        Kind::Knight => KNIGHT_TABLE,
        Kind::Bishop => BISHOP_TABLE,
        Kind::Rook => ROOK_TABLE,
        Kind::Queen => QUEEN_TABLE,
        Kind::King => KING_TABLE,
    }
}

/// The row of a table that a piece of the given colour reads on the given
/// rank (`0` is the first rank): White's rows run from the eighth rank down,
/// Black's from the first rank up.
pub open spec fn table_row(color: Color, rank: int) -> int {
    match color {
        Color::White => 7 - rank,
        Color::Black => rank,
    }
}

/// The positional bonus of a piece of the given kind and colour standing on
/// the given rank and file (both counted from `0`).
pub open spec fn positional_bonus(kind: Kind, color: Color, rank: int, file: int) -> int {
    table_of(kind)[table_row(color, rank)][file] as int
}

/// Returns the material value of a piece of the given kind.
pub fn material(kind: Kind) -> (r: i32)
    ensures
        r == base_value(kind),
{
    match kind {
        Kind::Pawn => 10,
        Kind::Knight => 30,
        Kind::Bishop => 30,
        Kind::Rook => 50,
        Kind::Queen => 90,
        Kind::King => 900,
    }
}

/// Black reads every table with the rows in reverse order: what Black gets
/// on a rank is what White gets on the rank mirrored across the middle of the
/// board, on the same file.
pub proof fn black_reads_rows_reversed(kind: Kind, rank: int, file: int)
    ensures
        positional_bonus(kind, Color::Black, rank, file) == positional_bonus(
            kind,
            Color::White,
            7 - rank,
            file,
        ),
{
}

/// No table holds an entry beyond five, either way.
pub proof fn bonus_is_small(kind: Kind, color: Color, rank: int, file: int)
    requires
        0 <= rank < 8,
        0 <= file < 8,
    ensures
        -5 <= positional_bonus(kind, color, rank, file) <= 5,
{
    let row = table_row(color, rank);
    let table = table_of(kind);
    assert(0 <= row < 8);
    assert(forall|r: int, c: int| 0 <= r < 8 && 0 <= c < 8 ==> -5 <= #[trigger] table[r][c] <= 5);
}

/// Returns the positional bonus of a piece of the given kind and colour on
/// the given rank and file.
pub(crate) fn bonus(kind: Kind, color: Color, rank: u8, file: u8) -> (r: i8)
    requires
        rank < 8,
        file < 8,
    ensures
        r == positional_bonus(kind, color, rank as int, file as int),
{
    let row: usize = match color {
        Color::White => 7 - rank as usize,
        Color::Black => rank as usize,
    };
    let column: usize = file as usize;
    match kind {
        Kind::Pawn => PAWN_TABLE[row][column],
        Kind::Knight => KNIGHT_TABLE[row][column],
        Kind::Bishop => BISHOP_TABLE[row][column],
        Kind::Rook => ROOK_TABLE[row][column],
        Kind::Queen => QUEEN_TABLE[row][column],
        Kind::King => KING_TABLE[row][column],
    }
}

} // verus!
