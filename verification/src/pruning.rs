//! Why pruning is safe: a walk with alpha-beta pruning and the plain negamax
//! value agree wherever the value lies between the bounds.

use vstd::prelude::*;
use vstd::math::max;
use shakmaty::Chess;
use crate::error::SearchError;
use crate::evaluate::{
    board_score, board_score_is_bounded, one_king_a_side_bounds_score, squares_of, SCORE_LIMIT,
};
use crate::game_tree::{
    agrees_within, best_reply, child, improved, is_mated, negamax, raised, reply_score,
    scan_replies, scan_visited, searchable, subtree_sizes, tree_size, visited, window_search,
    INFINITY_BOUND, MATE_SCORE,
};
use crate::material::piece_count;
use crate::piece::{Color, Kind, Piece};
use crate::rules::{moves_of, play_outcome};

verus! {

/// A mate outweighs every board that a game can show: with at most one king a
/// side no evaluation reaches `MATE_SCORE`, either way.
pub proof fn mate_outweighs_every_game_board(board: Seq<Option<Piece>>)
    requires
        piece_count(board, Color::White, Kind::King, 64) <= 1,
        piece_count(board, Color::Black, Kind::King, 64) <= 1,
    ensures
        -MATE_SCORE < board_score(board) < MATE_SCORE,
{
    one_king_a_side_bounds_score(board);
}

/// No position is worth more than the evaluator can give, either way.
pub proof fn negamax_is_bounded(game: Chess, depth: nat)
    ensures
        -SCORE_LIMIT <= negamax(game, depth) <= SCORE_LIMIT,
    decreases depth, moves_of(game).len() + 2,
{
    if moves_of(game).len() > 0 {
        if depth == 0 {
            board_score_is_bounded(squares_of(game));
        } else {
            lemma_best_reply_bounds(game, depth, moves_of(game).len());
        }
    }
}

/// No reply is worth more than the evaluator can give, either way.
proof fn lemma_best_reply_bounds(game: Chess, depth: nat, count: nat)
    requires
        depth > 0,
    ensures
        -SCORE_LIMIT <= best_reply(game, depth, count) <= SCORE_LIMIT,
    decreases depth, count + 1,
{
    let last: int = if count <= 1 { 0 } else { count - 1 };
    assert(reply_score(game, depth, last) == -negamax(child(game, last), (depth - 1) as nat));
    negamax_is_bounded(child(game, last), (depth - 1) as nat);
    if count > 1 {
        lemma_best_reply_bounds(game, depth, (count - 1) as nat);
    }
}

/// The best reply among more moves is no worse.
proof fn lemma_best_reply_grows(game: Chess, depth: nat, fewer: nat, more: nat)
    requires
        depth > 0,
        1 <= fewer <= more,
    ensures
        best_reply(game, depth, fewer) <= best_reply(game, depth, more),
    decreases more,
{
    if fewer < more {
        lemma_best_reply_grows(game, depth, fewer, (more - 1) as nat);
    }
}

/// A pruned walk returns no score beyond what the evaluator can give, either
/// way.
pub proof fn window_search_is_bounded(game: Chess, depth: nat, alpha: int, beta: int)
    ensures
        window_search(game, depth, alpha, beta) matches Ok(value) ==> -SCORE_LIMIT <= value
            <= SCORE_LIMIT,
    decreases depth, moves_of(game).len() + 1,
{
    if moves_of(game).len() > 0 {
        if depth == 0 {
            board_score_is_bounded(squares_of(game));
        } else {
            lemma_scan_replies_bounds(game, depth, 0, None, alpha, beta);
        }
    }
}

/// A walk over the replies returns no score beyond what the evaluator can
/// give, either way, if the best score it starts from lies within that.
proof fn lemma_scan_replies_bounds(
    game: Chess,
    depth: nat,
    from: nat,
    best: Option<int>,
    alpha: int,
    beta: int,
)
    requires
        depth > 0,
        best matches Some(b) ==> -SCORE_LIMIT <= b <= SCORE_LIMIT,
    ensures
        scan_replies(game, depth, from, best, alpha, beta) matches Ok(value) ==> -SCORE_LIMIT
            <= value <= SCORE_LIMIT,
    decreases depth, moves_of(game).len() - from,
{
    if from < moves_of(game).len() {
        if let Some(next) = play_outcome(game, moves_of(game)[from as int]) {
            let floor = raised(alpha, best);
            window_search_is_bounded(next, (depth - 1) as nat, -beta, -floor);
            if let Ok(value) = window_search(next, (depth - 1) as nat, -beta, -floor) {
                let found = improved(best, -value);
                if max(alpha, found) < beta {
                    lemma_scan_replies_bounds(game, depth, from + 1, Some(found), alpha, beta);
                }
            }
        }
    }
}

/// Pruning changes no result that matters: wherever the pruned walk ends
/// with a score and `alpha` lies below `beta`, that score is the negamax
/// value if the value lies strictly between the bounds; a value at or beyond
/// a bound gives a score between that bound and the value.
pub proof fn pruning_agrees_with_negamax(game: Chess, depth: nat, alpha: int, beta: int)
    requires
        window_search(game, depth, alpha, beta) is Ok,
        alpha < beta,
    ensures
        agrees_within(
            window_search(game, depth, alpha, beta)->Ok_0,
            negamax(game, depth),
            alpha,
            beta,
        ),
    decreases depth, moves_of(game).len() + 1,
{
    if depth > 0 && moves_of(game).len() > 0 {
        lemma_scan_agrees(game, depth, 0, None, alpha, beta);
    }
}

/// The walk over the replies from `from` on ends as `pruning_agrees_with_negamax`
/// says, if the best score so far is the best reply among the moves before
/// `from`, or lies between that and `alpha`, and has not reached `beta`.
proof fn lemma_scan_agrees(
    game: Chess,
    depth: nat,
    from: nat,
    best: Option<int>,
    alpha: int,
    beta: int,
)
    requires
        depth > 0,
        scan_replies(game, depth, from, best, alpha, beta) is Ok,
        alpha < beta,
        0 < moves_of(game).len(),
        from <= moves_of(game).len(),
        from == 0 <==> best is None,
        best matches Some(b) ==> {
            &&& best_reply(game, depth, from) <= b <= max(alpha, best_reply(game, depth, from))
            &&& b < beta
        },
    ensures
        agrees_within(
            scan_replies(game, depth, from, best, alpha, beta)->Ok_0,
            best_reply(game, depth, moves_of(game).len()),
            alpha,
            beta,
        ),
    decreases depth, moves_of(game).len() - from,
{
    let count = moves_of(game).len();
    if from < count {
        let floor = raised(alpha, best);
        let next = child(game, from as int);
        assert(play_outcome(game, moves_of(game)[from as int]) == Some(next));
        pruning_agrees_with_negamax(next, (depth - 1) as nat, -beta, -floor);
        let value = window_search(next, (depth - 1) as nat, -beta, -floor)->Ok_0;
        let found = improved(best, -value);
        assert(reply_score(game, depth, from as int) == -negamax(next, (depth - 1) as nat));
        if max(alpha, found) >= beta {
            lemma_best_reply_grows(game, depth, (from + 1) as nat, count);
        } else {
            lemma_scan_agrees(game, depth, from + 1, Some(found), alpha, beta);
        }
    }
}

/// Searched between the infinite bounds, the pruned walk returns the negamax
/// value itself wherever it ends with a score: pruning changes the work
/// done, never the value.
pub proof fn pruning_preserves_value(game: Chess, depth: nat)
    requires
        window_search(game, depth, -INFINITY_BOUND, INFINITY_BOUND as int) is Ok,
    ensures
        window_search(game, depth, -INFINITY_BOUND, INFINITY_BOUND as int) == Ok::<
            int,
            SearchError,
        >(negamax(game, depth)),
{
    negamax_is_bounded(game, depth);
    pruning_agrees_with_negamax(game, depth, -INFINITY_BOUND, INFINITY_BOUND as int);
}

/// A tree that can be walked is walked: the pruned walk ends with a score,
/// whatever the bounds.
pub proof fn searchable_tree_is_searched(game: Chess, depth: nat, alpha: int, beta: int)
    requires
        searchable(game, depth),
    ensures
        window_search(game, depth, alpha, beta) is Ok,
    decreases depth, moves_of(game).len() + 1,
{
    if depth > 0 && moves_of(game).len() > 0 {
        lemma_scan_is_walked(game, depth, 0, None, alpha, beta);
    }
}

/// The walk over the replies of a tree that can be walked ends with a score,
/// if it starts with one or with a move to play.
proof fn lemma_scan_is_walked(
    game: Chess,
    depth: nat,
    from: nat,
    best: Option<int>,
    alpha: int,
    beta: int,
)
    requires
        depth > 0,
        searchable(game, depth),
        from <= moves_of(game).len(),
        best is Some || from < moves_of(game).len(),
    ensures
        scan_replies(game, depth, from, best, alpha, beta) is Ok,
    decreases depth, moves_of(game).len() - from,
{
    if from < moves_of(game).len() {
        let floor = raised(alpha, best);
        assert(play_outcome(game, moves_of(game)[from as int]) is Some);
        let next = child(game, from as int);
        searchable_tree_is_searched(next, (depth - 1) as nat, -beta, -floor);
        let value = window_search(next, (depth - 1) as nat, -beta, -floor)->Ok_0;
        let found = improved(best, -value);
        if max(alpha, found) < beta {
            lemma_scan_is_walked(game, depth, from + 1, Some(found), alpha, beta);
        }
    }
}

/// A mate in one is seen at every depth from one ply on: where some legal
/// move mates, the position is worth at least `MATE_SCORE` to the side to
/// move.
pub proof fn mate_in_one_scores_mate(game: Chess, depth: nat, mating: int)
    requires
        depth >= 1,
        0 <= mating < moves_of(game).len(),
        is_mated(child(game, mating)),
    ensures
        negamax(game, depth) >= MATE_SCORE,
{
    assert(reply_score(game, depth, mating) == -negamax(child(game, mating), (depth - 1) as nat));
    lemma_best_reply_holds_each(game, depth, moves_of(game).len(), mating);
}

/// A mate in one is found by the search: where some legal move mates, a
/// search from one ply deep on, between the infinite bounds, that ends with
/// a score ends with at least `MATE_SCORE`.
pub proof fn mate_in_one_is_found(game: Chess, depth: nat, mating: int)
    requires
        depth >= 1,
        0 <= mating < moves_of(game).len(),
        is_mated(child(game, mating)),
        window_search(game, depth, -INFINITY_BOUND, INFINITY_BOUND as int) is Ok,
    ensures
        window_search(game, depth, -INFINITY_BOUND, INFINITY_BOUND as int)->Ok_0 >= MATE_SCORE,
{
    mate_in_one_scores_mate(game, depth, mating);
    pruning_preserves_value(game, depth);
}

/// The best of the first `count` replies is no worse than any one of them.
proof fn lemma_best_reply_holds_each(game: Chess, depth: nat, count: nat, i: int)
    requires
        depth > 0,
        0 <= i < count,
    ensures
        reply_score(game, depth, i) <= best_reply(game, depth, count),
    decreases count,
{
    if count > 1 && i < count - 1 {
        lemma_best_reply_holds_each(game, depth, (count - 1) as nat, i);
    }
}

/// Behind more moves lie no fewer positions.
proof fn lemma_subtree_sizes_grow(game: Chess, depth: nat, fewer: nat, more: nat)
    requires
        fewer <= more,
    ensures
        subtree_sizes(game, depth, fewer) <= subtree_sizes(game, depth, more),
    decreases more,
{
    if fewer < more && depth > 0 {
        lemma_subtree_sizes_grow(game, depth, fewer, (more - 1) as nat);
    }
}

/// Pruning saves work and adds none: the pruned walk visits no more
/// positions than lie within `depth` plies of `game`.
pub proof fn pruning_visits_no_more(game: Chess, depth: nat, alpha: int, beta: int)
    ensures
        visited(game, depth, alpha, beta) <= tree_size(game, depth),
    decreases depth, moves_of(game).len() + 1,
{
    if depth > 0 && moves_of(game).len() > 0 {
        lemma_scan_visits_no_more(game, depth, 0, None, alpha, beta);
    }
}

/// The walk over the replies from `from` on visits no more positions than lie
/// behind those replies.
proof fn lemma_scan_visits_no_more(
    game: Chess,
    depth: nat,
    from: nat,
    best: Option<int>,
    alpha: int,
    beta: int,
)
    requires
        depth > 0,
        from <= moves_of(game).len(),
    ensures
        subtree_sizes(game, depth, from) + scan_visited(game, depth, from, best, alpha, beta)
            <= subtree_sizes(game, depth, moves_of(game).len()),
    decreases depth, moves_of(game).len() - from,
{
    let count = moves_of(game).len();
    lemma_subtree_sizes_grow(game, depth, from, count);
    if from < count {
        lemma_subtree_sizes_grow(game, depth, from + 1, count);
        if let Some(next) = play_outcome(game, moves_of(game)[from as int]) {
            let floor = raised(alpha, best);
            pruning_visits_no_more(next, (depth - 1) as nat, -beta, -floor);
            if let Ok(value) = window_search(next, (depth - 1) as nat, -beta, -floor) {
                let found = improved(best, -value);
                if max(alpha, found) < beta {
                    lemma_scan_visits_no_more(game, depth, from + 1, Some(found), alpha, beta);
                }
            }
        }
    }
}

} // verus!
