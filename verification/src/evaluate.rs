//! The static evaluator: material and positional balance of a board, always
//! from White's point of view.

use vstd::prelude::*;
use shakmaty::Chess;
use crate::board::{flip_square, mirror, recolor, Board};
use crate::material::piece_count;
use crate::piece::{Color, Kind, Piece};
use crate::rules::{piece_at, piece_on};
use crate::tables::{base_value, bonus, bonus_is_small, material, positional_bonus};

verus! {

/// No board scores further from zero than this: 64 squares, each worth at
/// most a king and the largest entry a table can hold.
pub const SCORE_LIMIT: i32 = 65_792;

/// What one piece on the given rank and file adds to the score: its material
/// value and positional bonus, counted for White and against Black.
pub open spec fn piece_score(piece: Piece, rank: int, file: int) -> int {
    let worth = base_value(piece.kind) + positional_bonus(piece.kind, piece.color, rank, file);
    match piece.color {
        Color::White => worth,
        Color::Black => -worth,
    }
}

/// What the square on the given rank and file adds to the score.
pub open spec fn square_score(board: Seq<Option<Piece>>, rank: int, file: int) -> int {
    match board[8 * rank + file] {
        Some(piece) => piece_score(piece, rank, file),
        None => 0,
    }
}

/// The score of the first `files` squares of a rank.
pub open spec fn rank_score_upto(board: Seq<Option<Piece>>, rank: int, files: nat) -> int
    decreases files,
{
    if files == 0 {
        0
    } else {
        rank_score_upto(board, rank, (files - 1) as nat) + square_score(board, rank, files - 1)
    }
}

/// The score of the first `ranks` ranks of a board.
pub open spec fn board_score_upto(board: Seq<Option<Piece>>, ranks: nat) -> int
    decreases ranks,
{
    if ranks == 0 {
        0
    } else {
        board_score_upto(board, (ranks - 1) as nat) + rank_score_upto(board, ranks - 1, 8)
    }
}

/// The score of a board: the sum over all 64 squares of what each adds.
/// Positive favours White.
pub open spec fn board_score(board: Seq<Option<Piece>>) -> int {
    board_score_upto(board, 8)
}

/// The sixty-four squares of a position, as the rules engine reports them.
pub open spec fn squares_of(game: Chess) -> Seq<Option<Piece>> {
    Seq::new(64, |square: int| piece_on(game, square))
}

/// The score of a position: that of its board.
pub open spec fn position_score(game: Chess) -> int {
    board_score(squares_of(game))
}

/// A square adds at most a king and the largest table entry, either way.
proof fn lemma_square_score_bounds(board: Seq<Option<Piece>>, rank: int, file: int)
    ensures
        -1028 <= square_score(board, rank, file) <= 1028,
{
}

/// The first `files` squares of a rank add at most 1028 each.
proof fn lemma_rank_score_bounds(board: Seq<Option<Piece>>, rank: int, files: nat)
    ensures
        -1028 * files <= rank_score_upto(board, rank, files) <= 1028 * files,
    decreases files,
{
    if files > 0 {
        lemma_rank_score_bounds(board, rank, (files - 1) as nat);
        lemma_square_score_bounds(board, rank, files - 1);
    }
}

/// The first `ranks` ranks of a board add at most 8224 each.
proof fn lemma_board_score_upto_bounds(board: Seq<Option<Piece>>, ranks: nat)
    ensures
        -8224 * ranks <= board_score_upto(board, ranks) <= 8224 * ranks,
    decreases ranks,
{
    if ranks > 0 {
        lemma_board_score_upto_bounds(board, (ranks - 1) as nat);
        lemma_rank_score_bounds(board, ranks - 1, 8);
    }
}

/// Every board scores within `SCORE_LIMIT` of zero.
pub proof fn board_score_is_bounded(board: Seq<Option<Piece>>)
    ensures
        -SCORE_LIMIT <= board_score(board) <= SCORE_LIMIT,
{
    lemma_board_score_upto_bounds(board, 8);
}

/// Scores a board from White's point of view: for every piece its material
/// value plus its positional bonus, added for White and subtracted for Black.
pub fn get_values(board: &Board) -> (total: i32)
    ensures
        total == board_score(board@),
        -SCORE_LIMIT <= total <= SCORE_LIMIT,
{
    let mut total: i32 = 0;
    let mut rank: u8 = 0;
    while rank < 8
        invariant
            rank <= 8,
            total == board_score_upto(board@, rank as nat),
        decreases 8 - rank,
    {
        let mut row: i32 = 0;
        let mut file: u8 = 0;
        while file < 8
            invariant
                rank < 8,
                file <= 8,
                row == rank_score_upto(board@, rank as int, file as nat),
            decreases 8 - file,
        {
            proof {
                lemma_rank_score_bounds(board@, rank as int, file as nat);
                lemma_square_score_bounds(board@, rank as int, file as int);
            }
            match board.squares[8 * rank as usize + file as usize] {
                Some(piece) => {
                    let worth: i32 = material(piece.kind) + bonus(
                        piece.kind,
                        piece.color,
                        rank,
                        file,
                    ) as i32;
                    match piece.color {
                        Color::White => {
                            row += worth;
                        },
                        Color::Black => {
                            row -= worth;
                        },
                    }
                },
                None => {},
            }
            file += 1;
        }
        proof {
            lemma_board_score_upto_bounds(board@, rank as nat);
            lemma_rank_score_bounds(board@, rank as int, 8);
        }
        total += row;
        rank += 1;
    }
    proof {
        board_score_is_bounded(board@);
    }
    total
}

/// Reads the board of a position from the rules engine, square by square.
pub fn board_of(game: &Chess) -> (board: Board)
    ensures
        board@ == squares_of(*game),
{
    let mut squares: [Option<Piece>; 64] = [None; 64];
    let mut square: u8 = 0;
    while square < 64
        invariant
            square <= 64,
            forall|i: int| 0 <= i < square ==> squares@[i] == piece_on(*game, i),
        decreases 64 - square,
    {
        squares[square as usize] = piece_at(game, square);
        square += 1;
    }
    Board { squares }
}

/// Scores a position from White's point of view, whoever is to move.
pub fn evaluate(game: &Chess) -> (score: i32)
    ensures
        score == position_score(*game),
        -SCORE_LIMIT <= score <= SCORE_LIMIT,
{
    let board = board_of(game);
    get_values(&board)
}

/// On a mirrored board a square scores the opposite of its mirror image.
proof fn lemma_mirror_square(board: Seq<Option<Piece>>, rank: int, file: int)
    requires
        0 <= rank < 8,
        0 <= file < 8,
    ensures
        square_score(mirror(board), rank, file) == -square_score(board, 7 - rank, file),
{
    let square = 8 * rank + file;
    assert(square / 8 == rank && square % 8 == file);
    assert(flip_square(square) == 8 * (7 - rank) + file);
    assert(mirror(board)[square] == recolor(board[8 * (7 - rank) + file]));
}

/// On a mirrored board a rank scores the opposite of its mirror image.
proof fn lemma_mirror_rank(board: Seq<Option<Piece>>, rank: int)
    requires
        0 <= rank < 8,
    ensures
        rank_score_upto(mirror(board), rank, 8) == -rank_score_upto(board, 7 - rank, 8),
{
    reveal_with_fuel(rank_score_upto, 9);
    lemma_mirror_square(board, rank, 0);
    lemma_mirror_square(board, rank, 1);
    lemma_mirror_square(board, rank, 2);
    lemma_mirror_square(board, rank, 3);
    lemma_mirror_square(board, rank, 4);
    lemma_mirror_square(board, rank, 5);
    lemma_mirror_square(board, rank, 6);
    lemma_mirror_square(board, rank, 7);
}

/// Swapping the colour of every piece and mirroring its square vertically
/// negates the score.
pub proof fn mirror_negates_score(board: Seq<Option<Piece>>)
    ensures
        board_score(mirror(board)) == -board_score(board),
{
    reveal_with_fuel(board_score_upto, 9);
    lemma_mirror_rank(board, 0);
    lemma_mirror_rank(board, 1);
    lemma_mirror_rank(board, 2);
    lemma_mirror_rank(board, 3);
    lemma_mirror_rank(board, 4);
    lemma_mirror_rank(board, 5);
    lemma_mirror_rank(board, 6);
    lemma_mirror_rank(board, 7);
}

/// The first `files` squares of a rank score at most 95 each, and 810 more
/// for each king of White among them; and the same against Black.
proof fn lemma_rank_score_by_kings(board: Seq<Option<Piece>>, rank: int, files: nat)
    requires
        0 <= rank < 8,
        files <= 8,
    ensures
        rank_score_upto(board, rank, files) <= 95 * files + 810 * (piece_count(
            board,
            Color::White,
            Kind::King,
            (8 * rank + files) as nat,
        ) - piece_count(board, Color::White, Kind::King, (8 * rank) as nat)),
        rank_score_upto(board, rank, files) >= -95 * files - 810 * (piece_count(
            board,
            Color::Black,
            Kind::King,
            (8 * rank + files) as nat,
        ) - piece_count(board, Color::Black, Kind::King, (8 * rank) as nat)),
    decreases files,
{
    if files > 0 {
        lemma_rank_score_by_kings(board, rank, (files - 1) as nat);
        let file = files - 1;
        match board[8 * rank + file] {
            Some(piece) => {
                bonus_is_small(piece.kind, piece.color, rank, file);
            },
            None => {},
        }
    }
}

/// The first `ranks` ranks of a board score at most 760 each, and 810 more
/// for each king of White on them; and the same against Black.
proof fn lemma_board_score_by_kings(board: Seq<Option<Piece>>, ranks: nat)
    requires
        ranks <= 8,
    ensures
        board_score_upto(board, ranks) <= 760 * ranks + 810 * piece_count(
            board,
            Color::White,
            Kind::King,
            8 * ranks,
        ),
        board_score_upto(board, ranks) >= -760 * ranks - 810 * piece_count(
            board,
            Color::Black,
            Kind::King,
            8 * ranks,
        ),
    decreases ranks,
{
    if ranks > 0 {
        lemma_board_score_by_kings(board, (ranks - 1) as nat);
        lemma_rank_score_by_kings(board, ranks - 1, 8);
    }
}

/// A board with at most one king a side scores within 6890 of zero: 64
/// squares of at most 95, and at most one king with the 810 that it is worth
/// beyond that.
pub proof fn one_king_a_side_bounds_score(board: Seq<Option<Piece>>)
    requires
        piece_count(board, Color::White, Kind::King, 64) <= 1,
        piece_count(board, Color::Black, Kind::King, 64) <= 1,
    ensures
        -6890 <= board_score(board) <= 6890,
{
    lemma_board_score_by_kings(board, 8);
}

/// A board that is its own mirror image, as the starting position is, scores
/// zero.
pub proof fn symmetric_board_scores_zero(board: Seq<Option<Piece>>)
    requires
        mirror(board) == board,
    ensures
        board_score(board) == 0,
{
    mirror_negates_score(board);
}

/// Evaluation is repeatable: any two scores that `evaluate` returns for one
/// position are equal.
pub proof fn evaluation_is_repeatable(game: Chess, first: i32, second: i32)
    requires
        first == position_score(game),
        second == position_score(game),
    ensures
        first == second,
{
}

} // verus!
