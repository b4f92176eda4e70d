//! The board as the evaluator reads it: sixty-four squares, each empty or
//! holding one piece.

use vstd::prelude::*;
use crate::piece::Piece;

verus! {

/// A board of 64 squares. Square `8 * rank + file` lies on the given rank and
/// file, both counted from `0`: square 0 is a1, square 7 is h1, square 63 is
/// h8.
#[derive(Clone, Copy, Debug, PartialEq, Eq)]
pub struct Board {
    pub squares: [Option<Piece>; 64],
}

impl View for Board {
    type V = Seq<Option<Piece>>;

    open spec fn view(&self) -> Seq<Option<Piece>> {
        self.squares@
    }
}

/// The square that mirrors `square` across the middle of the board: same
/// file, ranks counted from the other end.
pub open spec fn flip_square(square: int) -> int {
    8 * (7 - square / 8) + square % 8
}

/// What stands on a square once its owner has changed sides.
pub open spec fn recolor(content: Option<Piece>) -> Option<Piece> {
    match content {
        Some(piece) => Some(piece.recolored()),
        None => None,
    }
}

/// The board seen from the other side: every piece changes colour and moves
/// to the vertically mirrored square.
pub open spec fn mirror(board: Seq<Option<Piece>>) -> Seq<Option<Piece>> {
    Seq::new(64, |square: int| recolor(board[flip_square(square)]))
}

impl Board {
    /// Returns a board with no piece on it.
    pub fn empty() -> (r: Board)
        ensures
            r@.len() == 64,
            forall|square: int| 0 <= square < 64 ==> r@[square] is None,
    {
        Board { squares: [None; 64] }
    }

    /// Returns the board seen from the other side.
    pub fn mirrored(&self) -> (r: Board)
        ensures
            r@ == mirror(self@),
    {
        let mut squares: [Option<Piece>; 64] = [None; 64];
        let mut square: usize = 0;
        while square < 64
            invariant
                square <= 64,
                forall|i: int| 0 <= i < square ==> squares@[i] == mirror(self@)[i],
            decreases 64 - square,
        {
            let source: usize = 8 * (7 - square / 8) + square % 8;
            squares[square] = match self.squares[source] {
                Some(piece) => Some(piece.swap_color()),
                None => None,
            };
            square += 1;
        }
        Board { squares }
    }
}

} // verus!
