use chess_ai::{
    accept_play, board_of, evaluate, minimax, relative_score, terminal_value, SearchError,
    INFINITY_BOUND, MATE_SCORE,
};
use shakmaty::fen::Fen;
use shakmaty::{CastlingMode, Chess, Move, Position, Role, Setup, Square};

const OPEN_GAME: &str = "r1bqkbnr/pppp1ppp/2n5/4p3/4P3/5N2/PPPP1PPP/RNBQKB1R w KQkq - 2 3";
const ROOK_ENDING: &str = "6k1/5ppp/8/8/8/8/8/R6K w - - 0 1";
const FOOLS_MATE: &str = "rnb1kbnr/pppp1ppp/8/4p3/6Pq/5P2/PPPPP2P/RNBQKBNR w KQkq - 1 3";
const STALEMATE: &str = "7k/5Q2/6K1/8/8/8/8/8 b - - 0 1";
const SICILIAN: &str = "rnbqkbnr/pp1ppppp/8/2p5/4P3/8/PPPP1PPP/RNBQKBNR w KQkq c6 0 2";

fn setup(fen: &str) -> Chess {
    let parsed: Fen = fen.parse().expect("a well-formed FEN");
    parsed.position(CastlingMode::Standard).expect("a legal position")
}

/// A position with fifty queens, which the rules engine sets up only when
/// asked to overlook the material.
fn crowded() -> Chess {
    let parsed: Fen = "QQQQQQBk/Q5NB/Q6Q/Q6Q/Q6Q/Q6Q/Q6Q/KQQQQQQQ w - - 0 1"
        .parse()
        .expect("a well-formed FEN");
    parsed
        .position::<Chess>(CastlingMode::Standard)
        .or_else(|refused| refused.ignore_impossible_material())
        .expect("a position but for its material")
}

/// Negamax without any pruning, written against the rules engine directly.
fn plain_negamax(game: &Chess, depth: u32) -> i32 {
    let moves = game.legal_moves();
    if moves.is_empty() {
        return if game.is_check() { -MATE_SCORE } else { 0 };
    }
    if depth == 0 {
        let score = evaluate(game);
        return if game.turn() == shakmaty::Color::White { score } else { -score };
    }
    let mut best = i32::MIN;
    for mv in &moves {
        let next = game.clone().play(mv).expect("an enumerated move");
        best = best.max(-plain_negamax(&next, depth - 1));
    }
    best
}

fn score(depth: u32, game: &Chess, alpha: i32, beta: i32) -> i32 {
    minimax(depth, game.clone(), alpha, beta).expect("a score").score
}

#[test]
fn constants_keep_their_order() {
    assert_eq!(MATE_SCORE, 9999);
    assert_eq!(INFINITY_BOUND, 1_000_000);
    assert!(MATE_SCORE < INFINITY_BOUND);
    assert!(chess_ai::SCORE_LIMIT < INFINITY_BOUND);
}

#[test]
fn terminal_value_is_a_loss_in_check_and_a_draw_otherwise() {
    assert_eq!(terminal_value(true), -9999);
    assert_eq!(terminal_value(false), 0);
}

#[test]
fn relative_score_negates_for_black() {
    let board = board_of(&setup(ROOK_ENDING));
    assert_eq!(relative_score(&board, chess_ai::Color::White), 16);
    assert_eq!(relative_score(&board, chess_ai::Color::Black), -16);
}

#[test]
fn accept_play_keeps_an_accepted_move() {
    let game = Chess::default();
    let pawn_push = Move::Normal {
        role: Role::Pawn,
        from: Square::E2,
        capture: None,
        to: Square::E4,
        promotion: None,
    };
    let next = accept_play(game.play(&pawn_push)).expect("a legal move");
    assert_eq!(next, setup("rnbqkbnr/pppppppp/8/8/4P3/8/PPPP1PPP/RNBQKBNR b KQkq - 0 1"));
}

#[test]
fn accept_play_reports_a_rejected_move() {
    let game = Chess::default();
    let too_far = Move::Normal {
        role: Role::Pawn,
        from: Square::E2,
        capture: None,
        to: Square::E5,
        promotion: None,
    };
    assert_eq!(accept_play(game.play(&too_far)), Err(SearchError::IllegalMove));
}

#[test]
fn depth_zero_is_the_evaluation_for_white() {
    let game = setup(ROOK_ENDING);
    let found = minimax(0, game.clone(), -INFINITY_BOUND, INFINITY_BOUND).unwrap();
    assert_eq!(found.score, 16);
    assert_eq!(found.score, evaluate(&game));
    assert_eq!(found.nodes, 1);
}

#[test]
fn depth_zero_is_the_negated_evaluation_for_black() {
    let game = setup("6k1/5ppp/8/8/8/8/8/R6K b - - 0 1");
    let found = minimax(0, game.clone(), -INFINITY_BOUND, INFINITY_BOUND).unwrap();
    assert_eq!(found.score, -16);
    assert_eq!(found.score, -evaluate(&game));
}

#[test]
fn depth_zero_ignores_the_bounds() {
    let game = setup(ROOK_ENDING);
    assert_eq!(score(0, &game, 100, 200), 16);
    assert_eq!(score(0, &game, -200, -100), 16);
    assert_eq!(score(0, &game, 5, 5), 16);
}

#[test]
fn depth_zero_on_a_finished_game_is_the_terminal_score() {
    let mated = setup(FOOLS_MATE);
    assert_eq!(score(0, &mated, -INFINITY_BOUND, INFINITY_BOUND), -MATE_SCORE);
    assert_ne!(evaluate(&mated), -MATE_SCORE);
    let stuck = setup(STALEMATE);
    assert_eq!(score(0, &stuck, -INFINITY_BOUND, INFINITY_BOUND), 0);
    assert_ne!(evaluate(&stuck), 0);
}

#[test]
fn checkmated_side_scores_minus_mate() {
    let game = setup(FOOLS_MATE);
    for depth in 0..4 {
        let found = minimax(depth, game.clone(), -INFINITY_BOUND, INFINITY_BOUND).unwrap();
        assert_eq!(found.score, -MATE_SCORE);
        assert_eq!(found.nodes, 1);
    }
}

#[test]
fn stalemated_side_scores_zero() {
    let game = setup(STALEMATE);
    assert!(game.legal_moves().is_empty());
    for depth in 0..4 {
        assert_eq!(score(depth, &game, -INFINITY_BOUND, INFINITY_BOUND), 0);
    }
}

#[test]
fn one_ply_takes_the_best_reply() {
    // White moves, then the position is scored for Black and negated: the
    // best White can reach in one move.
    let game = Chess::default();
    let best = game
        .legal_moves()
        .iter()
        .map(|mv| evaluate(&game.clone().play(mv).unwrap()))
        .max()
        .unwrap();
    assert_eq!(score(1, &game, -INFINITY_BOUND, INFINITY_BOUND), best);
    // A knight leaving b1 (bonus -4) for c3 (bonus 1) gains the most.
    assert_eq!(best, 5);
}

#[test]
fn one_ply_for_black_takes_the_lowest_evaluation() {
    let game = setup("rnbqkbnr/pppppppp/8/8/4P3/8/PPPP1PPP/RNBQKBNR b KQkq - 0 1");
    let lowest = game
        .legal_moves()
        .iter()
        .map(|mv| evaluate(&game.clone().play(mv).unwrap()))
        .min()
        .unwrap();
    assert_eq!(score(1, &game, -INFINITY_BOUND, INFINITY_BOUND), -lowest);
}

#[test]
fn pruned_search_equals_plain_negamax_up_to_depth_three() {
    for fen in [OPEN_GAME, ROOK_ENDING, SICILIAN] {
        let game = setup(fen);
        for depth in 0..4 {
            assert_eq!(
                score(depth, &game, -INFINITY_BOUND, INFINITY_BOUND),
                plain_negamax(&game, depth)
            );
        }
    }
}

#[test]
fn pruned_search_equals_plain_negamax_from_the_start() {
    let game = Chess::default();
    for depth in 0..4 {
        assert_eq!(
            score(depth, &game, -INFINITY_BOUND, INFINITY_BOUND),
            plain_negamax(&game, depth)
        );
    }
}

#[test]
fn pruned_search_equals_plain_negamax_near_the_end() {
    for fen in [FOOLS_MATE, STALEMATE, "7k/8/8/8/8/7p/7P/7K w - - 0 1"] {
        let game = setup(fen);
        for depth in 0..4 {
            assert_eq!(
                score(depth, &game, -INFINITY_BOUND, INFINITY_BOUND),
                plain_negamax(&game, depth)
            );
        }
    }
}

#[test]
fn narrow_bounds_keep_the_value_on_its_side() {
    for fen in [OPEN_GAME, ROOK_ENDING] {
        let game = setup(fen);
        for depth in 1..4 {
            let exact = plain_negamax(&game, depth);
            for (alpha, beta) in [
                (exact - 1, exact + 1),
                (exact, exact + 10),
                (exact - 10, exact),
                (exact + 3, exact + 8),
                (exact - 8, exact - 3),
                (-1, 1),
                (i32::MIN, i32::MAX),
                (i32::MIN, i32::MIN + 1),
                (i32::MAX - 1, i32::MAX),
            ] {
                let result = score(depth, &game, alpha, beta);
                if alpha < exact && exact < beta {
                    assert_eq!(result, exact);
                }
                if exact <= alpha {
                    assert!(exact <= result && result <= alpha);
                }
                if exact >= beta {
                    assert!(beta <= result && result <= exact);
                }
            }
        }
    }
}

#[test]
fn bounds_out_of_order_stop_after_the_first_reply() {
    let game = Chess::default();
    let first = game.legal_moves()[0].clone();
    let after = game.clone().play(&first).unwrap();
    for (alpha, beta) in [(10, -10), (0, 0), (i32::MAX, i32::MIN)] {
        let found = minimax(1, game.clone(), alpha, beta).unwrap();
        assert_eq!(found.score, evaluate(&after));
        assert_eq!(found.nodes, 2);
    }
}

#[test]
fn scores_stay_within_a_mate() {
    for fen in [OPEN_GAME, ROOK_ENDING, FOOLS_MATE, STALEMATE] {
        let game = setup(fen);
        for depth in 0..3 {
            let result = score(depth, &game, i32::MIN, i32::MAX);
            assert!(-MATE_SCORE <= result && result <= MATE_SCORE);
        }
    }
}

#[test]
fn mate_in_one_scores_a_mate() {
    // Ra8 mates, and a mated position scores as such however deep it lies.
    let game = setup(ROOK_ENDING);
    for depth in 1..4 {
        assert_eq!(score(depth, &game, -INFINITY_BOUND, INFINITY_BOUND), MATE_SCORE);
    }
}

#[test]
fn side_about_to_be_mated_scores_minus_mate() {
    // Black to move, and every move allows Ra8 mate or loses at once.
    let game = setup("7k/5ppp/8/8/8/8/8/R5RK b - - 0 1");
    let exact = plain_negamax(&game, 3);
    assert_eq!(score(3, &game, -INFINITY_BOUND, INFINITY_BOUND), exact);
}

#[test]
fn a_finished_game_ends_the_search_at_any_depth() {
    let found = minimax(u32::MAX, setup(FOOLS_MATE), -INFINITY_BOUND, INFINITY_BOUND).unwrap();
    assert_eq!(found.score, -MATE_SCORE);
    assert_eq!(found.nodes, 1);
}

#[test]
fn mated_side_scores_minus_9999_between_narrow_bounds() {
    let mated = setup("r1bqkb1r/pppp1Qpp/2n2n2/4p3/2B1P3/8/PPPP1PPP/RNB1K1NR b KQkq - 0 4");
    assert!(mated.is_checkmate());
    assert_eq!(score(1, &mated, -10000, 10000), -9999);
}

#[test]
fn mate_in_one_scores_9999_between_narrow_bounds() {
    // After f3, e5, g4 the queen mates on h4.
    let game = setup("rnbqkbnr/pppp1ppp/8/4p3/6P1/5P2/PPPPP2P/RNBQKBNR b KQkq - 0 2");
    assert_eq!(score(2, &game, -10000, 10000), 9999);
    assert_eq!(score(1, &game, -10000, 10000), 9999);
}

#[test]
fn too_much_material_is_refused_before_the_moves_are_asked_for() {
    let game = crowded();
    for depth in 0..3 {
        assert_eq!(
            minimax(depth, game.clone(), -INFINITY_BOUND, INFINITY_BOUND),
            Err(SearchError::ImpossiblePosition)
        );
    }
}

/// Black to move without a king: the rook has taken it, unchecked.
fn kingless() -> Chess {
    let mut game = setup("4k3/8/8/8/8/8/8/4K2R w - - 0 1");
    game.play_unchecked(&Move::Normal {
        role: Role::Rook,
        from: Square::H1,
        capture: Some(Role::King),
        to: Square::E8,
        promotion: None,
    });
    game
}

/// White to move with two kings: the second was put on the board, unchecked.
fn two_kings() -> Chess {
    let mut game = setup("4k3/8/8/8/8/8/8/4K3 w - - 0 1");
    game.play_unchecked(&Move::Put { role: Role::King, to: Square::A1 });
    game.play_unchecked(&Move::Normal {
        role: Role::King,
        from: Square::E8,
        capture: None,
        to: Square::E7,
        promotion: None,
    });
    game
}

#[test]
fn a_side_to_move_without_its_king_is_refused() {
    let game = kingless();
    assert_eq!(game.turn(), shakmaty::Color::Black);
    for depth in 0..3 {
        assert_eq!(
            minimax(depth, game.clone(), -INFINITY_BOUND, INFINITY_BOUND),
            Err(SearchError::ImpossiblePosition)
        );
    }
}

#[test]
fn a_side_to_move_with_two_kings_is_refused() {
    let game = two_kings();
    assert_eq!(game.turn(), shakmaty::Color::White);
    for depth in 0..3 {
        assert_eq!(
            minimax(depth, game.clone(), -INFINITY_BOUND, INFINITY_BOUND),
            Err(SearchError::ImpossiblePosition)
        );
    }
}

#[test]
fn a_second_king_of_the_other_side_is_met_one_ply_down() {
    // White has two kings and Black is to move: the position can be asked
    // about, the positions after Black's moves cannot.
    let mut game = setup("4k3/8/8/8/8/8/8/4K3 w - - 0 1");
    game.play_unchecked(&Move::Put { role: Role::King, to: Square::A1 });
    assert_eq!(game.turn(), shakmaty::Color::Black);
    assert!(minimax(0, game.clone(), -INFINITY_BOUND, INFINITY_BOUND).is_ok());
    assert_eq!(
        minimax(1, game, -INFINITY_BOUND, INFINITY_BOUND),
        Err(SearchError::ImpossiblePosition)
    );
}

#[test]
fn a_second_queen_is_within_the_material_of_a_game() {
    let parsed: Fen = "4k3/8/8/8/8/8/PPPPPPP1/QQ2K3 w - - 0 1".parse().unwrap();
    let game: Chess = parsed.position(CastlingMode::Standard).unwrap();
    assert!(minimax(1, game, -INFINITY_BOUND, INFINITY_BOUND).is_ok());
}

#[test]
fn one_ply_visits_the_position_and_each_reply() {
    let game = Chess::default();
    let found = minimax(1, game, -INFINITY_BOUND, INFINITY_BOUND).unwrap();
    assert_eq!(found.nodes, 21);
}

#[test]
fn pruning_visits_no_more_than_the_whole_tree() {
    let game = Chess::default();
    let found = minimax(2, game, -INFINITY_BOUND, INFINITY_BOUND).unwrap();
    assert!(found.nodes >= 1 + 20 + 20);
    assert!(found.nodes < 1 + 20 + 400);
}

#[test]
fn search_follows_the_side_to_move() {
    // The same board scores oppositely for the two sides at depth zero, and
    // the rook is White's to move only when White is to move.
    let white = setup(ROOK_ENDING);
    let black = setup("6k1/5ppp/8/8/8/8/8/R6K b - - 0 1");
    assert_eq!(score(1, &white, -INFINITY_BOUND, INFINITY_BOUND), plain_negamax(&white, 1));
    assert_eq!(score(1, &black, -INFINITY_BOUND, INFINITY_BOUND), plain_negamax(&black, 1));
    assert!(score(1, &white, -INFINITY_BOUND, INFINITY_BOUND) > 0);
    assert!(score(1, &black, -INFINITY_BOUND, INFINITY_BOUND) < 0);
}
