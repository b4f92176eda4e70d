//! The boundary to the rules engine.
//!
//! Positions and moves belong to `shakmaty`. This module declares them as
//! opaque types, gives names to what the engine reports about a position, and
//! wraps each engine call the search makes. Nothing in this file is proved:
//! the contracts below are assumptions about `shakmaty`.

use vstd::prelude::*;
use shakmaty::{Chess, Move, PlayError, Position, Role, Setup, Square};
use crate::evaluate::squares_of;
use crate::material::{piece_count, standard_material};
use crate::piece::{Color, Kind, Piece};

verus! {

/// `shakmaty::Chess`, a legal position of standard chess. Opaque here.
#[verifier::external_type_specification]
#[verifier::external_body]
pub struct ExChess(Chess);

/// `shakmaty::Move`, a move as the engine enumerates it. Opaque here.
#[verifier::external_type_specification]
#[verifier::external_body]
pub struct ExMove(Move);

/// `shakmaty::PlayError`, the engine's rejection of a move. Opaque here.
#[verifier::external_type_specification]
#[verifier::external_body]
#[verifier::reject_recursive_types(P)]
pub struct ExPlayError<P>(PlayError<P>);

/// What `Board::piece_at` reports for the square with index `square`
/// (`0` is a1, `7` is h1, `63` is h8) on the board of `game`.
pub uninterp spec fn piece_on(game: Chess, square: int) -> Option<Piece>;

/// What `Setup::turn` reports for `game`: the side to move.
pub uninterp spec fn turn_of(game: Chess) -> Color;

/// What `Position::legal_moves` reports for `game`, in the engine's order.
pub uninterp spec fn moves_of(game: Chess) -> Seq<Move>;

/// What `Position::is_check` reports for `game`.
pub uninterp spec fn in_check(game: Chess) -> bool;

/// What `Position::play` makes of `mv` in `game`: the position after the
/// move, or `None` where the engine rejects the move.
pub uninterp spec fn play_outcome(game: Chess, mv: Move) -> Option<Chess>;

/// Calls `Board::piece_at` on the board of `game`. The result is named
/// `piece_on`; the engine's colour and role are carried over one for one.
/// `Square::new` panics from index 64 on, hence the precondition.
#[verifier::external_body]
pub(crate) fn piece_at(game: &Chess, square: u8) -> (r: Option<Piece>)
    requires
        square < 64,
    ensures
        r == piece_on(*game, square as int),
{
    let p = game.board().piece_at(Square::new(u32::from(square)))?;
    let color = match p.color {
        shakmaty::Color::White => Color::White,
        shakmaty::Color::Black => Color::Black,
    };
    let kind = match p.role {
        Role::Pawn => Kind::Pawn,
        Role::Knight => Kind::Knight,
        Role::Bishop => Kind::Bishop,
        Role::Rook => Kind::Rook,
        Role::Queen => Kind::Queen,
        Role::King => Kind::King,
    };
    Some(Piece { color, kind })
}

/// Calls `Setup::turn`. The result is named `turn_of`.
#[verifier::external_body]
pub(crate) fn side_to_move(game: &Chess) -> (r: Color)
    ensures
        r == turn_of(*game),
{
    match game.turn() {
        shakmaty::Color::White => Color::White,
        shakmaty::Color::Black => Color::Black,
    }
}

/// Calls `Position::legal_moves` and hands the moves out in the engine's
/// order. The result is named `moves_of`.
///
/// The engine unwraps the one king of the side to move and panics where that
/// side has none or several. Its public `Position::play_unchecked` checks
/// nothing and can leave such a `Chess` behind: the second precondition
/// leaves those positions out.
///
/// The engine collects the moves in a list of 256 places and panics when a
/// position has more. A caller of the engine can waive its test of the
/// material with `PositionError::ignore_impossible_material` and so make a
/// `Chess` with more moves than that: the first precondition, which repeats
/// that test, leaves those positions out. What is assumed beyond the source:
/// that a position within both preconditions has no more than 256 legal
/// moves. The engine documents its list as large enough for chess positions
/// and shows that of no board in particular.
#[verifier::external_body]
pub(crate) fn legal_moves(game: &Chess) -> (r: Vec<Move>)
    requires
        standard_material(squares_of(*game)),
        piece_count(squares_of(*game), turn_of(*game), Kind::King, 64) == 1,
    ensures
        r@ == moves_of(*game),
{
    game.legal_moves().into_iter().collect()
}

/// Calls `Position::is_check`. The result is named `in_check`.
#[verifier::external_body]
pub(crate) fn is_check(game: &Chess) -> (r: bool)
    ensures
        r == in_check(*game),
{
    game.is_check()
}

/// Calls `Position::play` on a copy of `game`, which the engine consumes.
/// The result is named `play_outcome`: `Ok` carries the position after the
/// move, `Err` stands for `None`. Nothing is claimed about which moves the
/// engine accepts.
///
/// To test the move the engine generates the legal moves to one square, and
/// for that unwraps the one king of the side to move as `legal_moves` does:
/// the precondition leaves out the positions where that side has none or
/// several.
#[verifier::external_body]
pub(crate) fn play(game: &Chess, mv: &Move) -> (r: Result<Chess, PlayError<Chess>>)
    requires
        piece_count(squares_of(*game), turn_of(*game), Kind::King, 64) == 1,
    ensures
        r matches Ok(next) ==> play_outcome(*game, *mv) == Some(next),
        r is Err ==> play_outcome(*game, *mv) is None,
{
    game.clone().play(mv)
}

} // verus!
