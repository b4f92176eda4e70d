//! The search: negamax with alpha-beta pruning over the positions that the
//! rules engine spans.

use vstd::prelude::*;
use shakmaty::{Chess, PlayError};
use crate::board::Board;
use crate::error::SearchError;
use crate::evaluate::{board_of, board_score, get_values, squares_of, SCORE_LIMIT};
use crate::game_tree::{
    agrees_within, capped, negamax, scan_replies, scan_visited, searchable, visited,
    window_search, MATE_SCORE,
};
use crate::material::{is_playable, piece_count};
use crate::piece::Kind;
use crate::piece::Color;
use crate::pruning::{
    pruning_agrees_with_negamax, searchable_tree_is_searched, window_search_is_bounded,
};
use crate::rules::{is_check, legal_moves, moves_of, play, side_to_move, turn_of};

verus! {

/// Scores a board from the point of view of the side to move: the
/// evaluator's score for White, its negation for Black.
pub fn relative_score(board: &Board, turn: Color) -> (score: i32)
    ensures
        score == match turn {
            Color::White => board_score(board@),
            Color::Black => -board_score(board@),
        },
{
    let score: i32 = get_values(board);
    match turn {
        Color::White => score,
        Color::Black => -score,
    }
}

/// Scores a position without legal moves from the point of view of the side
/// to move: `-MATE_SCORE` when it is in check, `0` when it is not.
pub fn terminal_value(checked: bool) -> (score: i32)
    ensures
        score == if checked {
            -MATE_SCORE
        } else {
            0
        },
{
    if checked {
        -MATE_SCORE
    } else {
        0
    }
}

/// Turns the rules engine's answer to a move into the search's own terms: the
/// position after the move, or `IllegalMove` where the engine rejected it.
pub fn accept_play(outcome: Result<Chess, PlayError<Chess>>) -> (r: Result<Chess, SearchError>)
    ensures
        outcome matches Ok(next) ==> r == Ok::<Chess, SearchError>(next),
        outcome is Err ==> r == Err::<Chess, SearchError>(SearchError::IllegalMove),
{
    match outcome {
        Ok(next) => Ok(next),
        Err(_) => Err(SearchError::IllegalMove),
    }
}

/// The best score so far, as the walk over the replies counts it.
pub open spec fn as_score(best: Option<i32>) -> Option<int> {
    match best {
        Some(b) => Some(b as int),
        None => None,
    }
}

/// What a search found: the score of the position from the point of view of
/// the side to move, and the number of positions visited on the way, which
/// stops counting at `u64::MAX`.
#[derive(Clone, Copy, Debug, PartialEq, Eq, Structural)]
pub struct Searched {
    pub score: i32,
    pub nodes: u64,
}

/// The pruned walk itself, on bounds wide enough to negate every `i32`.
fn search(game: &Chess, depth: u32, alpha: i64, beta: i64) -> (r: Result<Searched, SearchError>)
    requires
        -0x8000_0000 <= alpha <= 0x8000_0000,
        -0x8000_0000 <= beta <= 0x8000_0000,
    ensures
        r matches Ok(found) ==> {
            &&& window_search(*game, depth as nat, alpha as int, beta as int) == Ok::<
                int,
                SearchError,
            >(found.score as int)
            &&& found.nodes == capped(visited(*game, depth as nat, alpha as int, beta as int))
        },
        r matches Err(e) ==> window_search(*game, depth as nat, alpha as int, beta as int)
            == Err::<int, SearchError>(e),
    decreases depth,
{
    let board = board_of(game);
    let turn = side_to_move(game);
    if !is_playable(&board, turn) {
        return Err(SearchError::ImpossiblePosition);
    }
    let moves = legal_moves(game);
    let count: usize = moves.len();
    if count == 0 {
        return Ok(Searched { score: terminal_value(is_check(game)), nodes: 1 });
    }
    if depth == 0 {
        return Ok(Searched { score: relative_score(&board, turn), nodes: 1 });
    }
    let mut best: Option<i32> = None;
    let mut nodes: u64 = 1;
    let ghost mut counted: nat = 1;
    let mut i: usize = 0;
    while i < count
        invariant
            depth > 0,
            count == moves.len(),
            count > 0,
            moves@ == moves_of(*game),
            piece_count(squares_of(*game), turn_of(*game), Kind::King, 64) == 1,
            i <= count,
            -0x8000_0000 <= alpha <= 0x8000_0000,
            -0x8000_0000 <= beta <= 0x8000_0000,
            i == 0 <==> best is None,
            best matches Some(b) ==> -SCORE_LIMIT <= b <= SCORE_LIMIT,
            window_search(*game, depth as nat, alpha as int, beta as int) == scan_replies(
                *game,
                depth as nat,
                i as nat,
                as_score(best),
                alpha as int,
                beta as int,
            ),
            visited(*game, depth as nat, alpha as int, beta as int) == counted + scan_visited(
                *game,
                depth as nat,
                i as nat,
                as_score(best),
                alpha as int,
                beta as int,
            ),
            nodes == capped(counted),
        decreases count - i,
    {
        let next = match accept_play(play(game, &moves[i])) {
            Ok(next) => next,
            Err(e) => {
                return Err(e);
            },
        };
        let floor: i64 = match best {
            Some(b) => if b as i64 > alpha {
                b as i64
            } else {
                alpha
            },
            None => alpha,
        };
        proof {
            window_search_is_bounded(next, (depth - 1) as nat, (-beta) as int, (-floor) as int);
        }
        let below = match search(&next, depth - 1, -beta, -floor) {
            Ok(below) => below,
            Err(e) => {
                return Err(e);
            },
        };
        let score: i32 = -below.score;
        let found: i32 = match best {
            Some(b) => if b > score {
                b
            } else {
                score
            },
            None => score,
        };
        nodes = nodes.saturating_add(below.nodes);
        proof {
            counted = counted + visited(next, (depth - 1) as nat, (-beta) as int, (-floor) as int);
        }
        if alpha >= beta || found as i64 >= beta {
            return Ok(Searched { score: found, nodes });
        }
        best = Some(found);
        i += 1;
    }
    Ok(Searched { score: best.unwrap(), nodes })
}

/// Searches `game` to the given depth between the bounds `alpha` and `beta`
/// and returns its score from the point of view of the side to move, with the
/// number of positions visited.
///
/// A position without legal moves scores `-MATE_SCORE` in check and `0`
/// otherwise, at any depth. At depth zero any other position gets the
/// evaluator's score, negated for Black. Else each legal move is played and
/// the position it leads to searched one ply less deep between `-beta` and
/// the negated bound that a reply has to beat; the greatest negated value is
/// the score, and the walk stops at the first reply that reaches `beta`.
///
/// The board of every position is read, and its material and the king of
/// the side to move are tested, before the rules engine is asked for the
/// moves. The search fails with `ImpossiblePosition` at the first position
/// that does not pass, and with `IllegalMove` at the first move that the
/// rules engine rejects.
pub fn minimax(depth: u32, game: Chess, alpha: i32, beta: i32) -> (r: Result<
    Searched,
    SearchError,
>)
    ensures
        r matches Ok(found) ==> {
            &&& window_search(game, depth as nat, alpha as int, beta as int) == Ok::<
                int,
                SearchError,
            >(found.score as int)
            &&& found.nodes == capped(visited(game, depth as nat, alpha as int, beta as int))
            &&& -SCORE_LIMIT <= found.score <= SCORE_LIMIT
        },
        r matches Err(e) ==> window_search(game, depth as nat, alpha as int, beta as int)
            == Err::<int, SearchError>(e),
        searchable(game, depth as nat) ==> r is Ok,
        alpha < beta ==> (r matches Ok(found) ==> agrees_within(
            found.score as int,
            negamax(game, depth as nat),
            alpha as int,
            beta as int,
        )),
{
    proof {
        window_search_is_bounded(game, depth as nat, alpha as int, beta as int);
        if searchable(game, depth as nat) {
            searchable_tree_is_searched(game, depth as nat, alpha as int, beta as int);
        }
        if alpha < beta && window_search(game, depth as nat, alpha as int, beta as int) is Ok {
            pruning_agrees_with_negamax(game, depth as nat, alpha as int, beta as int);
        }
    }
    search(&game, depth, alpha as i64, beta as i64)
}

} // verus!
