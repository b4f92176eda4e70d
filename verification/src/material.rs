//! Counting the pieces on a board, and the material that a game of chess can
//! produce: what the rules engine takes for granted when it enumerates moves.

use vstd::prelude::*;
use crate::board::Board;
use crate::piece::{Color, Kind, Piece};

verus! {

/// Whether the square with the given index is a light square. The corner a1,
/// square `0`, is dark.
pub open spec fn is_light(square: int) -> bool {
    (square / 8 + square % 8) % 2 == 1
}

/// How many of the first `squares` squares hold a piece of the given colour
/// and kind.
pub open spec fn piece_count(
    board: Seq<Option<Piece>>,
    color: Color,
    kind: Kind,
    squares: nat,
) -> nat
    decreases squares,
{
    if squares == 0 {
        0
    } else {
        let before = piece_count(board, color, kind, (squares - 1) as nat);
        if board[squares - 1] == Some(Piece { color, kind }) {
            before + 1
        } else {
            before
        }
    }
}

/// How many of the first `squares` squares hold a bishop of the given colour
/// on a light square (`light`) or on a dark one.
pub open spec fn bishop_count(
    board: Seq<Option<Piece>>,
    color: Color,
    light: bool,
    squares: nat,
) -> nat
    decreases squares,
{
    if squares == 0 {
        0
    } else {
        let before = bishop_count(board, color, light, (squares - 1) as nat);
        if board[squares - 1] == Some(Piece { color, kind: Kind::Bishop }) && is_light(squares - 1)
            == light {
            before + 1
        } else {
            before
        }
    }
}

/// How many pieces of one sort exceed what a side starts the game with.
pub open spec fn surplus(count: nat, at_start: nat) -> nat {
    if count > at_start {
        (count - at_start) as nat
    } else {
        0
    }
}

/// Whether the given side holds no more material than promotions can
/// produce: its pawns, together with every queen beyond the first, every rook
/// and knight beyond the second, and every bishop beyond the first on squares
/// of either shade, number eight at most.
pub open spec fn side_has_standard_material(board: Seq<Option<Piece>>, color: Color) -> bool {
    piece_count(board, color, Kind::Pawn, 64) + surplus(
        piece_count(board, color, Kind::Queen, 64),
        1,
    ) + surplus(piece_count(board, color, Kind::Rook, 64), 2) + surplus(
        piece_count(board, color, Kind::Knight, 64),
        2,
    ) + surplus(bishop_count(board, color, true, 64), 1) + surplus(
        bishop_count(board, color, false, 64),
        1,
    ) <= 8
}

/// Whether both sides hold no more material than promotions can produce.
pub open spec fn standard_material(board: Seq<Option<Piece>>) -> bool {
    side_has_standard_material(board, Color::White) && side_has_standard_material(
        board,
        Color::Black,
    )
}

/// Whether the rules engine can be asked for the moves of a position with
/// this board and this side to move: both sides hold no more material than
/// promotions can produce, and the side to move has exactly one king.
pub open spec fn playable(board: Seq<Option<Piece>>, turn: Color) -> bool {
    standard_material(board) && piece_count(board, turn, Kind::King, 64) == 1
}

/// Returns how many pieces of one sort exceed what a side starts with.
fn beyond(count: u8, at_start: u8) -> (r: u8)
    ensures
        r == surplus(count as nat, at_start as nat),
{
    if count > at_start {
        count - at_start
    } else {
        0
    }
}

/// Tests whether the given side holds no more material than promotions can
/// produce.
pub fn side_within_material(board: &Board, color: Color) -> (r: bool)
    ensures
        r == side_has_standard_material(board@, color),
{
    let mut pawns: u8 = 0;
    let mut knights: u8 = 0;
    let mut rooks: u8 = 0;
    let mut queens: u8 = 0;
    let mut light_bishops: u8 = 0;
    let mut dark_bishops: u8 = 0;
    let mut square: usize = 0;
    while square < 64
        invariant
            square <= 64,
            pawns == piece_count(board@, color, Kind::Pawn, square as nat),
            knights == piece_count(board@, color, Kind::Knight, square as nat),
            rooks == piece_count(board@, color, Kind::Rook, square as nat),
            queens == piece_count(board@, color, Kind::Queen, square as nat),
            light_bishops == bishop_count(board@, color, true, square as nat),
            dark_bishops == bishop_count(board@, color, false, square as nat),
            pawns <= square,
            knights <= square,
            rooks <= square,
            queens <= square,
            light_bishops <= square,
            dark_bishops <= square,
        decreases 64 - square,
    {
        let light: bool = (square / 8 + square % 8) % 2 == 1;
        match board.squares[square] {
            Some(piece) => {
                if piece.color == color {
                    match piece.kind {
                        Kind::Pawn => {
                            pawns += 1;
                        },
                        Kind::Knight => {
                            knights += 1;
                        },
                        Kind::Rook => {
                            rooks += 1;
                        },
                        Kind::Queen => {
                            queens += 1;
                        },
                        Kind::Bishop => {
                            if light {
                                light_bishops += 1;
                            } else {
                                dark_bishops += 1;
                            }
                        },
                        Kind::King => {},
                    }
                }
            },
            None => {},
        }
        square += 1;
    }
    let promoted: u16 = beyond(queens, 1) as u16 + beyond(rooks, 2) as u16 + beyond(knights, 2) as u16
        + beyond(light_bishops, 1) as u16 + beyond(dark_bishops, 1) as u16;
    pawns as u16 + promoted <= 8
}

/// Tests whether both sides hold no more material than promotions can
/// produce.
pub fn has_standard_material(board: &Board) -> (r: bool)
    ensures
        r == standard_material(board@),
{
    side_within_material(board, Color::White) && side_within_material(board, Color::Black)
}

/// Counts the kings of the given side.
pub fn king_count(board: &Board, color: Color) -> (r: u8)
    ensures
        r == piece_count(board@, color, Kind::King, 64),
{
    let mut kings: u8 = 0;
    let mut square: usize = 0;
    while square < 64
        invariant
            square <= 64,
            kings == piece_count(board@, color, Kind::King, square as nat),
            kings <= square,
        decreases 64 - square,
    {
        match board.squares[square] {
            Some(piece) => {
                if piece.color == color {
                    match piece.kind {
                        Kind::King => {
                            kings += 1;
                        },
                        _ => {},
                    }
                }
            },
            None => {},
        }
        square += 1;
    }
    kings
}

/// Tests whether the rules engine can be asked for the moves of a position
/// with this board and this side to move.
pub fn is_playable(board: &Board, turn: Color) -> (r: bool)
    ensures
        r == playable(board@, turn),
{
    has_standard_material(board) && king_count(board, turn) == 1
}

} // verus!
