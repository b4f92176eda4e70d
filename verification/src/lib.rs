//! A move-search engine for chess: a static evaluator and a depth-limited
//! negamax search with alpha-beta pruning, over positions and moves that the
//! `shakmaty` rules engine owns.
//!
//! `get_values` scores a board, `minimax` searches a position between two
//! bounds, and `minimax_root` chooses a move. The modules `game_tree`,
//! `pruning` and `root` say what these compute and why pruning does not
//! change it; `material` tests what the rules engine takes for granted of a
//! position, and `rules` holds everything that is assumed of that engine.

pub mod board;
pub mod error;
pub mod evaluate;
pub mod game_tree;
pub mod material;
pub mod piece;
pub mod pruning;
pub mod root;
pub mod rules;
pub mod search;
pub mod tables;

pub use crate::board::Board;
pub use crate::error::SearchError;
pub use crate::evaluate::{board_of, evaluate, get_values, SCORE_LIMIT};
pub use crate::game_tree::{INFINITY_BOUND, MATE_SCORE};
pub use crate::material::{has_standard_material, is_playable, king_count};
pub use crate::piece::{Color, Kind, Piece};
pub use crate::root::{minimax_root, select_best, Chosen};
pub use crate::search::{accept_play, minimax, relative_score, terminal_value, Searched};
