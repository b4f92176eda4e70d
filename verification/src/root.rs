//! The root of the search: every legal move is scored by a search of the
//! position it leads to, and the first move with the greatest score is chosen.

use vstd::prelude::*;
use shakmaty::{Chess, Move};
use crate::error::SearchError;
use crate::evaluate::{board_of, squares_of};
use crate::game_tree::{
    best_reply, capped, child, is_mated, negamax, one_king_a_side, reply_score, searchable,
    subtree_sizes, tree_size, visited, window_search, INFINITY_BOUND, MATE_SCORE,
};
use crate::material::{is_playable, piece_count, playable};
use crate::piece::Kind;
use crate::pruning::{
    mate_outweighs_every_game_board, pruning_preserves_value, pruning_visits_no_more,
    searchable_tree_is_searched,
};
use crate::rules::{legal_moves, moves_of, play, play_outcome, side_to_move, turn_of};
use crate::search::{accept_play, minimax};

verus! {

/// Whether `index` is the first place in `scores` that holds their maximum.
pub open spec fn is_first_best(scores: Seq<int>, index: int) -> bool {
    &&& 0 <= index < scores.len()
    &&& forall|j: int| 0 <= j < scores.len() ==> scores[j] <= scores[index]
    &&& forall|j: int| 0 <= j < index ==> scores[j] < scores[index]
}

/// The first place in `scores` that holds their maximum; `0` for no scores.
pub open spec fn first_best(scores: Seq<int>) -> int
    decreases scores.len(),
{
    if scores.len() <= 1 {
        0
    } else {
        let before = first_best(scores.drop_last());
        if scores.last() > scores[before] {
            scores.len() - 1
        } else {
            before
        }
    }
}

/// Among equal scores the earliest wins: `first_best` holds the maximum, and
/// every score before it is smaller.
pub proof fn first_best_is_leftmost(scores: Seq<int>)
    requires
        scores.len() > 0,
    ensures
        is_first_best(scores, first_best(scores)),
    decreases scores.len(),
{
    if scores.len() > 1 {
        let before = scores.drop_last();
        first_best_is_leftmost(before);
        assert forall|j: int| 0 <= j < before.len() implies before[j] == scores[j] by {}
    }
}

/// The scores as integers.
pub open spec fn as_ints(scores: Seq<i32>) -> Seq<int> {
    scores.map_values(|score: i32| score as int)
}

/// Returns the first index that holds the greatest of the scores, or `None`
/// where there is no score.
pub fn select_best(scores: &Vec<i32>) -> (r: Option<usize>)
    ensures
        scores.len() == 0 ==> r is None,
        scores.len() > 0 ==> (r matches Some(index) && index == first_best(as_ints(scores@))),
        r matches Some(index) ==> is_first_best(as_ints(scores@), index as int),
{
    if scores.len() == 0 {
        return None;
    }
    let mut chosen: usize = 0;
    let mut i: usize = 1;
    while i < scores.len()
        invariant
            1 <= i <= scores.len(),
            chosen == first_best(as_ints(scores@).take(i as int)),
            chosen < i,
        decreases scores.len() - i,
    {
        proof {
            let ints = as_ints(scores@);
            assert(ints.take(i + 1).drop_last() == ints.take(i as int));
        }
        if scores[i] > scores[chosen] {
            chosen = i;
        }
        i += 1;
    }
    proof {
        let ints = as_ints(scores@);
        assert(ints.take(ints.len() as int) == ints);
        first_best_is_leftmost(ints);
    }
    Some(chosen)
}

/// What the legal move with index `i` scores at the root of a search `depth`
/// plies deep: the negated value of a pruned walk, one ply less deep and
/// between the infinite bounds, over the position it leads to. It fails
/// with `IllegalMove` where the rules engine rejects the move, and as the
/// walk below it fails.
pub open spec fn root_score(game: Chess, depth: nat, i: int) -> Result<int, SearchError> {
    match play_outcome(game, moves_of(game)[i]) {
        None => Err(SearchError::IllegalMove),
        Some(next) => match window_search(
            next,
            (depth - 1) as nat,
            -INFINITY_BOUND,
            INFINITY_BOUND as int,
        ) {
            Err(e) => Err(e),
            Ok(value) => Ok(-value),
        },
    }
}

/// The scores of the first `count` legal moves at the root, in the rules
/// engine's order, or the failure of the first move that fails.
pub open spec fn root_scores(game: Chess, depth: nat, count: nat) -> Result<Seq<int>, SearchError>
    decreases count,
{
    if count == 0 {
        Ok(Seq::empty())
    } else {
        match root_scores(game, depth, (count - 1) as nat) {
            Err(e) => Err(e),
            Ok(scores) => match root_score(game, depth, count - 1) {
                Err(e) => Err(e),
                Ok(score) => Ok(scores.push(score)),
            },
        }
    }
}

/// The score of the move that the search chooses: the greatest score at the
/// root.
pub open spec fn best_score(game: Chess, depth: nat) -> int {
    let scores = root_scores(game, depth, moves_of(game).len())->Ok_0;
    scores[first_best(scores)]
}

/// How many positions the search visits below the first `count` legal moves
/// of `game`, where every search ends with a score.
pub open spec fn visited_below(game: Chess, depth: nat, count: nat) -> nat
    decreases count,
{
    if count == 0 {
        0
    } else {
        visited_below(game, depth, (count - 1) as nat) + visited(
            child(game, count - 1),
            (depth - 1) as nat,
            -INFINITY_BOUND,
            INFINITY_BOUND as int,
        )
    }
}

/// How many positions the search visits to choose a move in `game`, `game`
/// included, where it chooses one.
pub open spec fn root_visited(game: Chess, depth: nat) -> nat {
    1 + visited_below(game, depth, moves_of(game).len())
}

/// The move that the search chooses in `game` with a search `depth` plies
/// deep: the first legal move with the greatest score at the root.
pub open spec fn best_move(game: Chess, depth: nat) -> Result<Move, SearchError> {
    if depth == 0 {
        Err(SearchError::InvalidDepth)
    } else if !playable(squares_of(game), turn_of(game)) {
        Err(SearchError::ImpossiblePosition)
    } else if moves_of(game).len() == 0 {
        Err(SearchError::NoLegalMoves)
    } else {
        match root_scores(game, depth, moves_of(game).len()) {
            Err(e) => Err(e),
            Ok(scores) => Ok(moves_of(game)[first_best(scores)]),
        }
    }
}

/// The move that a search without pruning chooses: the first legal move with
/// the greatest reply score.
pub open spec fn plain_best_move(game: Chess, depth: nat) -> Result<Move, SearchError> {
    if depth == 0 {
        Err(SearchError::InvalidDepth)
    } else if moves_of(game).len() == 0 {
        Err(SearchError::NoLegalMoves)
    } else {
        Ok(
            moves_of(game)[first_best(
                Seq::new(moves_of(game).len(), |i: int| reply_score(game, depth, i)),
            )],
        )
    }
}

/// What the search chose: the move, its score from the point of view of the
/// side to move, and the number of positions visited to find it, which stops
/// counting at `u64::MAX`.
#[derive(Debug, PartialEq, Eq)]
pub struct Chosen {
    pub best: Move,
    pub score: i32,
    pub nodes: u64,
}

/// Once a move has failed at the root, the scores of more moves fail alike.
proof fn lemma_root_failure_stays(game: Chess, depth: nat, fewer: nat, more: nat)
    requires
        fewer <= more,
        root_scores(game, depth, fewer) is Err,
    ensures
        root_scores(game, depth, more) == root_scores(game, depth, fewer),
    decreases more,
{
    if fewer < more {
        lemma_root_failure_stays(game, depth, fewer, (more - 1) as nat);
    }
}

/// Chooses a move for the side to move in `game`, looking `depth` plies
/// ahead, the root included.
///
/// Fails with `InvalidDepth` at depth zero, with `ImpossiblePosition` where
/// the rules engine cannot be asked about the position, and with
/// `NoLegalMoves` where it offers no move. Else every legal move is played
/// and the position it leads to searched `depth - 1` plies deep between the
/// infinite bounds; the first move with the greatest negated value is
/// returned, not played. A move that the rules engine rejects, or a search
/// that fails, ends the choice with that failure.
pub fn minimax_root(depth: u32, game: Chess) -> (r: Result<Chosen, SearchError>)
    ensures
        r matches Ok(chosen) ==> {
            &&& best_move(game, depth as nat) == Ok::<Move, SearchError>(chosen.best)
            &&& chosen.score == best_score(game, depth as nat)
            &&& chosen.nodes == capped(root_visited(game, depth as nat))
            &&& plain_best_move(game, depth as nat) == Ok::<Move, SearchError>(chosen.best)
            &&& chosen.score == negamax(game, depth as nat)
        },
        r matches Err(e) ==> best_move(game, depth as nat) == Err::<Move, SearchError>(e),
        depth > 0 && moves_of(game).len() > 0 && searchable(game, depth as nat) ==> r is Ok,
{
    proof {
        if best_move(game, depth as nat) is Ok {
            pruning_preserves_choice(game, depth as nat);
        }
        if depth > 0 && moves_of(game).len() > 0 && searchable(game, depth as nat) {
            searchable_root_has_a_choice(game, depth as nat);
        }
    }
    if depth == 0 {
        return Err(SearchError::InvalidDepth);
    }
    let board = board_of(&game);
    if !is_playable(&board, side_to_move(&game)) {
        return Err(SearchError::ImpossiblePosition);
    }
    let mut moves = legal_moves(&game);
    let count: usize = moves.len();
    if count == 0 {
        return Err(SearchError::NoLegalMoves);
    }
    let mut scores: Vec<i32> = Vec::new();
    let mut nodes: u64 = 1;
    let mut i: usize = 0;
    assert(as_ints(scores@) == Seq::<int>::empty());
    while i < count
        invariant
            depth > 0,
            playable(squares_of(game), turn_of(game)),
            count > 0,
            count == moves.len(),
            moves@ == moves_of(game),
            i <= count,
            scores.len() == i,
            root_scores(game, depth as nat, i as nat) == Ok::<Seq<int>, SearchError>(
                as_ints(scores@),
            ),
            nodes == capped(1 + visited_below(game, depth as nat, i as nat)),
        decreases count - i,
    {
        let next = match accept_play(play(&game, &moves[i])) {
            Ok(next) => next,
            Err(e) => {
                proof {
                    assert(root_score(game, depth as nat, i as int) == Err::<int, SearchError>(e));
                    lemma_root_failure_stays(game, depth as nat, (i + 1) as nat, count as nat);
                }
                return Err(e);
            },
        };
        let below = match minimax(depth - 1, next, -INFINITY_BOUND, INFINITY_BOUND) {
            Ok(below) => below,
            Err(e) => {
                proof {
                    assert(root_score(game, depth as nat, i as int) == Err::<int, SearchError>(e));
                    lemma_root_failure_stays(game, depth as nat, (i + 1) as nat, count as nat);
                }
                return Err(e);
            },
        };
        let score: i32 = -below.score;
        proof {
            assert(as_ints(scores@.push(score)) == as_ints(scores@).push(score as int));
        }
        scores.push(score);
        nodes = nodes.saturating_add(below.nodes);
        i += 1;
    }
    let index: usize = select_best(&scores).unwrap();
    Ok(Chosen { best: moves.swap_remove(index), score: scores[index], nodes })
}

/// The greatest of the first `count` reply scores is the best reply.
proof fn lemma_first_best_is_best_reply(game: Chess, depth: nat, count: nat)
    requires
        depth > 0,
        1 <= count <= moves_of(game).len(),
    ensures
        ({
            let scores = Seq::new(moves_of(game).len(), |i: int| reply_score(game, depth, i)).take(
                count as int,
            );
            scores[first_best(scores)] == best_reply(game, depth, count)
        }),
    decreases count,
{
    let all = Seq::new(moves_of(game).len(), |i: int| reply_score(game, depth, i));
    let scores = all.take(count as int);
    if count > 1 {
        lemma_first_best_is_best_reply(game, depth, (count - 1) as nat);
        assert(scores.drop_last() == all.take(count - 1));
        first_best_is_leftmost(scores.drop_last());
    }
}

/// Where the first `count` legal moves get a score at the root, the scores
/// are their reply scores.
proof fn lemma_root_scores_are_reply_scores(game: Chess, depth: nat, count: nat)
    requires
        depth > 0,
        root_scores(game, depth, count) is Ok,
        count <= moves_of(game).len(),
    ensures
        root_scores(game, depth, count) == Ok::<Seq<int>, SearchError>(
            Seq::new(moves_of(game).len(), |i: int| reply_score(game, depth, i)).take(count as int),
        ),
    decreases count,
{
    let plain = Seq::new(moves_of(game).len(), |i: int| reply_score(game, depth, i));
    if count == 0 {
        assert(plain.take(0) == Seq::<int>::empty());
    } else {
        lemma_root_scores_are_reply_scores(game, depth, (count - 1) as nat);
        assert(play_outcome(game, moves_of(game)[count - 1]) is Some);
        pruning_preserves_value(child(game, count - 1), (depth - 1) as nat);
        assert(plain.take(count - 1).push(reply_score(game, depth, count - 1)) == plain.take(
            count as int,
        ));
    }
}

/// Pruning changes no choice: wherever the search chooses a move, it is the
/// move that a search without pruning chooses, and its score is the negamax
/// value of the position.
pub proof fn pruning_preserves_choice(game: Chess, depth: nat)
    requires
        best_move(game, depth) is Ok,
    ensures
        best_move(game, depth) == plain_best_move(game, depth),
        best_score(game, depth) == negamax(game, depth),
{
    let plain = Seq::new(moves_of(game).len(), |i: int| reply_score(game, depth, i));
    lemma_root_scores_are_reply_scores(game, depth, moves_of(game).len());
    lemma_first_best_is_best_reply(game, depth, moves_of(game).len());
    assert(plain.take(plain.len() as int) == plain);
}

/// Where the tree below `game` can be walked, the first `count` legal moves
/// get a score at the root.
proof fn lemma_searchable_root_scores(game: Chess, depth: nat, count: nat)
    requires
        depth > 0,
        searchable(game, depth),
        count <= moves_of(game).len(),
    ensures
        root_scores(game, depth, count) is Ok,
    decreases count,
{
    if count > 0 {
        lemma_searchable_root_scores(game, depth, (count - 1) as nat);
        assert(play_outcome(game, moves_of(game)[count - 1]) is Some);
        searchable_tree_is_searched(
            child(game, count - 1),
            (depth - 1) as nat,
            -INFINITY_BOUND,
            INFINITY_BOUND as int,
        );
    }
}

/// A tree that can be walked gives a choice: the search chooses a move
/// wherever there is one and the depth is at least one ply.
pub proof fn searchable_root_has_a_choice(game: Chess, depth: nat)
    requires
        depth > 0,
        moves_of(game).len() > 0,
        searchable(game, depth),
    ensures
        best_move(game, depth) is Ok,
{
    lemma_searchable_root_scores(game, depth, moves_of(game).len());
}

/// Behind the first `count` legal moves the search visits no more positions
/// than lie there.
proof fn lemma_visited_below_no_more(game: Chess, depth: nat, count: nat)
    requires
        depth > 0,
    ensures
        visited_below(game, depth, count) <= subtree_sizes(game, depth, count),
    decreases count,
{
    if count > 0 {
        lemma_visited_below_no_more(game, depth, (count - 1) as nat);
        pruning_visits_no_more(
            child(game, count - 1),
            (depth - 1) as nat,
            -INFINITY_BOUND,
            INFINITY_BOUND as int,
        );
    }
}

/// To choose a move the search visits no more positions than lie within
/// `depth` plies of `game`.
pub proof fn root_visits_no_more(game: Chess, depth: nat)
    requires
        depth >= 1,
    ensures
        root_visited(game, depth) <= tree_size(game, depth),
{
    lemma_visited_below_no_more(game, depth, moves_of(game).len());
}

/// A position with exactly one legal move: the search chooses that move at
/// every depth from one ply on, whatever it scores. The search fails only
/// where the rules engine cannot be asked about the position, or where the
/// walk below the move fails, and then fails alike.
pub proof fn only_move_is_chosen(game: Chess, depth: nat)
    requires
        depth >= 1,
        moves_of(game).len() == 1,
    ensures
        best_move(game, depth) matches Ok(chosen) ==> chosen == moves_of(game)[0],
        playable(squares_of(game), turn_of(game)) && root_score(game, depth, 0) is Ok
            ==> best_move(game, depth) == Ok::<Move, SearchError>(moves_of(game)[0]),
        playable(squares_of(game), turn_of(game)) ==> (root_score(game, depth, 0) matches Err(e)
            ==> best_move(game, depth) == Err::<Move, SearchError>(e)),
        !playable(squares_of(game), turn_of(game)) ==> best_move(game, depth) == Err::<
            Move,
            SearchError,
        >(SearchError::ImpossiblePosition),
        searchable(game, depth) ==> best_move(game, depth) == Ok::<Move, SearchError>(
            moves_of(game)[0],
        ),
{
    reveal_with_fuel(root_scores, 2);
    if searchable(game, depth) {
        searchable_root_has_a_choice(game, depth);
    }
}

/// A position without legal moves: the search fails with `NoLegalMoves` at
/// every depth from one ply on, if the rules engine can be asked about the
/// position at all.
pub proof fn no_move_to_choose(game: Chess, depth: nat)
    requires
        depth >= 1,
        moves_of(game).len() == 0,
    ensures
        playable(squares_of(game), turn_of(game)) ==> best_move(game, depth) == Err::<
            Move,
            SearchError,
        >(SearchError::NoLegalMoves),
        !playable(squares_of(game), turn_of(game)) ==> best_move(game, depth) == Err::<
            Move,
            SearchError,
        >(SearchError::ImpossiblePosition),
{
}

/// The place among the legal moves of the move that the search chooses,
/// where it chooses one.
pub open spec fn chosen_index(game: Chess, depth: nat) -> int {
    first_best(root_scores(game, depth, moves_of(game).len())->Ok_0)
}

/// Searched at most one ply deep, no position is worth more than a mate,
/// either way, and only a mated side gets the mate against it. Without a
/// ply to search, no side gets the mate for it.
proof fn lemma_only_the_mated_lose(game: Chess, depth: nat)
    requires
        depth <= 1,
        one_king_a_side(game, depth),
    ensures
        -MATE_SCORE <= negamax(game, depth) <= MATE_SCORE,
        negamax(game, depth) == -MATE_SCORE <==> is_mated(game),
        depth == 0 ==> negamax(game, depth) < MATE_SCORE,
    decreases depth, moves_of(game).len() + 1,
{
    if moves_of(game).len() > 0 {
        if depth == 0 {
            mate_outweighs_every_game_board(squares_of(game));
        } else {
            lemma_replies_above_mate(game, moves_of(game).len());
        }
    }
}

/// One ply deep, the best of the first `count` replies is better than being
/// mated, and no better than mating.
proof fn lemma_replies_above_mate(game: Chess, count: nat)
    requires
        one_king_a_side(game, 1),
        1 <= count <= moves_of(game).len(),
    ensures
        -MATE_SCORE < best_reply(game, 1, count) <= MATE_SCORE,
    decreases 1nat, count,
{
    let last = count - 1;
    assert(one_king_a_side(child(game, last), 0));
    lemma_only_the_mated_lose(child(game, last), 0);
    assert(reply_score(game, 1, last) == -negamax(child(game, last), 0));
    if count > 1 {
        lemma_replies_above_mate(game, (count - 1) as nat);
    }
}

/// A mate in one is played: where some legal move mates, a search one or two
/// plies deep that chooses a move chooses one that mates, and scores it
/// `MATE_SCORE`. The tree below `game` is taken to show at most one king a
/// side. From three plies on the law does not hold: a move that forces a
/// mate later scores as much and may come first.
pub proof fn mate_in_one_is_played(game: Chess, depth: nat)
    requires
        depth == 1 || depth == 2,
        best_move(game, depth) is Ok,
        one_king_a_side(game, depth),
        exists|i: int| 0 <= i < moves_of(game).len() && is_mated(child(game, i)),
    ensures
        0 <= chosen_index(game, depth) < moves_of(game).len(),
        best_move(game, depth) == Ok::<Move, SearchError>(
            moves_of(game)[chosen_index(game, depth)],
        ),
        is_mated(child(game, chosen_index(game, depth))),
        best_score(game, depth) == MATE_SCORE,
{
    let count = moves_of(game).len();
    let plain = Seq::new(count, |i: int| reply_score(game, depth, i));
    let mating = choose|i: int| 0 <= i < count && is_mated(child(game, i));
    lemma_root_scores_are_reply_scores(game, depth, count);
    assert(plain.take(count as int) == plain);
    first_best_is_leftmost(plain);
    let chosen = first_best(plain);
    assert(one_king_a_side(child(game, mating), (depth - 1) as nat));
    assert(one_king_a_side(child(game, chosen), (depth - 1) as nat));
    lemma_only_the_mated_lose(child(game, mating), (depth - 1) as nat);
    lemma_only_the_mated_lose(child(game, chosen), (depth - 1) as nat);
    assert(plain[mating] == -negamax(child(game, mating), (depth - 1) as nat));
    assert(plain[chosen] == -negamax(child(game, chosen), (depth - 1) as nat));
}

} // verus!
