use vstd::prelude::*;

verus! {

/// The two sides of a chess game.
#[derive(Clone, Copy, Debug, PartialEq, Eq, Structural)]
pub enum Color {
    White,
    Black,
}

impl Color {
    /// The opposing side.
    pub open spec fn other(self) -> Color {
        match self {
            Color::White => Color::Black,
            Color::Black => Color::White,
        }
    }

    /// Returns the opposing side.
    pub fn opponent(self) -> (r: Color)
        ensures
            r == self.other(),
    {
        match self {
            Color::White => Color::Black,
            Color::Black => Color::White,
        }
    }
}

/// The six kinds of chess piece.
#[derive(Clone, Copy, Debug, PartialEq, Eq, Structural)]
pub enum Kind {
    Pawn,
    Knight,
    Bishop,
    Rook,
    Queen,
    King,
}

/// A piece: its kind and the side that owns it.
#[derive(Clone, Copy, Debug, PartialEq, Eq, Structural)]
pub struct Piece {
    pub color: Color,
    pub kind: Kind,
}

impl Piece {
    /// The same kind of piece, owned by the other side.
    pub open spec fn recolored(self) -> Piece {
        Piece { color: self.color.other(), kind: self.kind }
    }

    /// Returns the same kind of piece, owned by the other side.
    pub fn swap_color(self) -> (r: Piece)
        ensures
            r == self.recolored(),
    {
        Piece { color: self.color.opponent(), kind: self.kind }
    }
}

} // verus!
