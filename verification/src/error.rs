use vstd::prelude::*;

verus! {

/// The ways a search can fail.
#[derive(Clone, Copy, Debug, PartialEq, Eq, Structural)]
pub enum SearchError {
    /// The position offers no move to choose from.
    NoLegalMoves,
    /// A move was asked for at a depth below one ply.
    InvalidDepth,
    /// The rules engine rejected a move that it had enumerated itself.
    IllegalMove,
    /// A position is none that the rules engine can be asked about: it holds
    /// more material than promotions can produce, or the side to move has
    /// not exactly one king.
    ImpossiblePosition,
}

} // verus!
