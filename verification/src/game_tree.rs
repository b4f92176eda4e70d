//! The game tree below a position, as the rules engine spans it, and the two
//! values the search is about: the plain negamax value of a position, and
//! what a walk with alpha-beta pruning makes of it.

use vstd::prelude::*;
use vstd::math::max;
use shakmaty::Chess;
use crate::error::SearchError;
use crate::evaluate::{position_score, squares_of};
use crate::material::{piece_count, playable};
use crate::piece::{Color, Kind};
use crate::rules::{in_check, moves_of, play_outcome, turn_of};

verus! {

/// The score given to the side to move when it has been checkmated. No board
/// with at most one king a side evaluates that far from zero.
pub const MATE_SCORE: i32 = 9999;

/// A bound that no score reaches: the root searches every reply between
/// `-INFINITY_BOUND` and `INFINITY_BOUND`.
pub const INFINITY_BOUND: i32 = 1_000_000;

/// The static score of a position, from the point of view of the side to
/// move.
pub open spec fn leaf_score(game: Chess) -> int {
    match turn_of(game) {
        Color::White => position_score(game),
        Color::Black => -position_score(game),
    }
}

/// The score of a position without legal moves, from the point of view of the
/// side to move: a loss when in check, a draw otherwise.
pub open spec fn terminal_score(game: Chess) -> int {
    if in_check(game) {
        -MATE_SCORE
    } else {
        0
    }
}

/// The position after the legal move with index `i`. Meaningful where the
/// rules engine accepts that move.
pub open spec fn child(game: Chess, i: int) -> Chess {
    play_outcome(game, moves_of(game)[i]).unwrap()
}

/// Whether a search `depth` plies deep can walk all of the tree below
/// `game`: the rules engine can be asked about every position within `depth`
/// plies, and accepts every move that it enumerates above the last ply.
pub open spec fn searchable(game: Chess, depth: nat) -> bool
    decreases depth,
{
    &&& playable(squares_of(game), turn_of(game))
    &&& depth > 0 ==> forall|i: int|
        0 <= i < moves_of(game).len() ==> {
            &&& (#[trigger] play_outcome(game, moves_of(game)[i])) is Some
            &&& searchable(child(game, i), (depth - 1) as nat)
        }
}

/// Whether the side to move in `game` has been checkmated: it is in check
/// and has no legal move.
pub open spec fn is_mated(game: Chess) -> bool {
    moves_of(game).len() == 0 && in_check(game)
}

/// Whether every position within `depth` plies of `game` shows at most one
/// king a side, as every position of a game does.
pub open spec fn one_king_a_side(game: Chess, depth: nat) -> bool
    decreases depth,
{
    &&& piece_count(squares_of(game), Color::White, Kind::King, 64) <= 1
    &&& piece_count(squares_of(game), Color::Black, Kind::King, 64) <= 1
    &&& depth > 0 ==> forall|i: int|
        0 <= i < moves_of(game).len() ==> one_king_a_side(
            #[trigger] child(game, i),
            (depth - 1) as nat,
        )
}

/// The negamax value of a position searched `depth` plies deep, without any
/// pruning, from the point of view of the side to move: the terminal score
/// where the game is over, the static score where no ply is left, and else
/// the best that a legal move leads to.
pub open spec fn negamax(game: Chess, depth: nat) -> int
    decreases depth, moves_of(game).len() + 2,
{
    if moves_of(game).len() == 0 {
        terminal_score(game)
    } else if depth == 0 {
        leaf_score(game)
    } else {
        best_reply(game, depth, moves_of(game).len())
    }
}

/// What the legal move with index `i` is worth to the side to move in `game`,
/// searched `depth` plies deep from `game`: the negated value of the position
/// it leads to.
pub open spec fn reply_score(game: Chess, depth: nat, i: int) -> int
    decreases depth, 0nat,
{
    if depth == 0 {
        0
    } else {
        -negamax(child(game, i), (depth - 1) as nat)
    }
}

/// The greatest `reply_score` among the first `count` legal moves, for a
/// `count` of at least one.
pub open spec fn best_reply(game: Chess, depth: nat, count: nat) -> int
    decreases depth, count + 1,
{
    if depth == 0 {
        0
    } else if count <= 1 {
        reply_score(game, depth, 0)
    } else {
        max(best_reply(game, depth, (count - 1) as nat), reply_score(game, depth, count - 1))
    }
}

/// The bound that a reply has to beat: the caller's `alpha`, raised to the
/// best score found so far.
pub open spec fn raised(alpha: int, best: Option<int>) -> int {
    match best {
        Some(b) => max(alpha, b),
        None => alpha,
    }
}

/// The best score once one more reply has scored `score`.
pub open spec fn improved(best: Option<int>, score: int) -> int {
    match best {
        Some(b) => max(b, score),
        None => score,
    }
}

/// The value that a walk with alpha-beta pruning gives a position, searched
/// `depth` plies deep between the bounds `alpha` and `beta`, from the point
/// of view of the side to move. The walk fails with `ImpossiblePosition` at
/// the first position it visits that the rules engine cannot be asked about,
/// and with `IllegalMove` at the first move it plays that the rules engine
/// rejects.
pub open spec fn window_search(game: Chess, depth: nat, alpha: int, beta: int) -> Result<
    int,
    SearchError,
>
    decreases depth, moves_of(game).len() + 1,
{
    if !playable(squares_of(game), turn_of(game)) {
        Err(SearchError::ImpossiblePosition)
    } else if moves_of(game).len() == 0 {
        Ok(terminal_score(game))
    } else if depth == 0 {
        Ok(leaf_score(game))
    } else {
        scan_replies(game, depth, 0, None, alpha, beta)
    }
}

/// The walk over the legal moves of `game` from index `from` on, for a depth
/// of at least one, where `best` is the greatest score among the moves
/// before `from`. Each reply is searched between `-beta` and the negated
/// raised bound, and its value negated; the walk ends at the first reply that
/// lifts the raised bound to `beta` or beyond, with the best score so far.
pub open spec fn scan_replies(
    game: Chess,
    depth: nat,
    from: nat,
    best: Option<int>,
    alpha: int,
    beta: int,
) -> Result<int, SearchError>
    decreases depth, moves_of(game).len() - from,
{
    if depth == 0 || from >= moves_of(game).len() {
        match best {
            Some(b) => Ok(b),
            None => Err(SearchError::NoLegalMoves),
        }
    } else {
        match play_outcome(game, moves_of(game)[from as int]) {
            None => Err(SearchError::IllegalMove),
            Some(next) => match window_search(
                next,
                (depth - 1) as nat,
                -beta,
                -raised(alpha, best),
            ) {
                Err(e) => Err(e),
                Ok(value) => {
                    let found = improved(best, -value);
                    if max(alpha, found) >= beta {
                        Ok(found)
                    } else {
                        scan_replies(game, depth, from + 1, Some(found), alpha, beta)
                    }
                },
            },
        }
    }
}

/// How many positions a walk with alpha-beta pruning visits, `game` included,
/// where it ends with a score.
pub open spec fn visited(game: Chess, depth: nat, alpha: int, beta: int) -> nat
    decreases depth, moves_of(game).len() + 1,
{
    if depth == 0 || moves_of(game).len() == 0 {
        1
    } else {
        1 + scan_visited(game, depth, 0, None, alpha, beta)
    }
}

/// How many positions the walk over the legal moves of `game` visits from
/// index `from` on, where it ends with a score.
pub open spec fn scan_visited(
    game: Chess,
    depth: nat,
    from: nat,
    best: Option<int>,
    alpha: int,
    beta: int,
) -> nat
    decreases depth, moves_of(game).len() - from,
{
    if depth == 0 || from >= moves_of(game).len() {
        0
    } else {
        match play_outcome(game, moves_of(game)[from as int]) {
            None => 0,
            Some(next) => {
                let below = visited(next, (depth - 1) as nat, -beta, -raised(alpha, best));
                match window_search(next, (depth - 1) as nat, -beta, -raised(alpha, best)) {
                    Err(_) => 0,
                    Ok(value) => {
                        let found = improved(best, -value);
                        if max(alpha, found) >= beta {
                            below
                        } else {
                            below + scan_visited(game, depth, from + 1, Some(found), alpha, beta)
                        }
                    },
                }
            },
        }
    }
}

/// How many positions lie within `depth` plies of `game`, `game` included:
/// what a walk without pruning visits.
pub open spec fn tree_size(game: Chess, depth: nat) -> nat
    decreases depth, moves_of(game).len() + 1,
{
    if depth == 0 {
        1
    } else {
        1 + subtree_sizes(game, depth, moves_of(game).len())
    }
}

/// How many positions lie below `game` behind its first `count` legal moves,
/// within `depth` plies of `game`.
pub open spec fn subtree_sizes(game: Chess, depth: nat, count: nat) -> nat
    decreases depth, count,
{
    if depth == 0 || count == 0 {
        0
    } else {
        subtree_sizes(game, depth, (count - 1) as nat) + tree_size(
            child(game, count - 1),
            (depth - 1) as nat,
        )
    }
}

/// A count of positions as a `u64` holds it: exact up to `u64::MAX`, and
/// `u64::MAX` beyond.
pub open spec fn capped(count: nat) -> u64 {
    if count > u64::MAX {
        u64::MAX
    } else {
        count as u64
    }
}

/// What a search between `alpha` and `beta` may return for a position whose
/// negamax value is `exact`: the value itself where it lies strictly between
/// the bounds, otherwise a score on the same side of the bounds that lies
/// between the value and the bound it missed.
pub open spec fn agrees_within(result: int, exact: int, alpha: int, beta: int) -> bool {
    &&& alpha < exact < beta ==> result == exact
    &&& exact <= alpha ==> exact <= result <= alpha
    &&& exact >= beta ==> beta <= result <= exact
}

} // verus!
