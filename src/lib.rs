//! An Othello engine: bitboards, legal-move generation, the move and pass
//! rules with terminal detection, a heuristic evaluator, a negamax search and
//! the decisions of a play session shared by a human and the engine.

pub mod bitboard;
pub mod board;
pub mod display;
pub mod eval;
pub mod laws;
pub mod moves;
pub mod opening;
pub mod search;
pub mod session;

pub use bitboard::BitBoard;
pub use board::{Board, BoardState, InvalidMove};
pub use display::{paint_board, Colorscheme, SquarePaint};
pub use eval::{score, DiscDifference, Evaluator, Heuristic, CORNER_WEIGHT, EVAL_BOUND, X_SQUARE_PENALTY};
pub use laws::{
    lemma_disc_total, lemma_full_board_has_no_moves, lemma_legal_moves_deterministic,
    lemma_move_adds_a_disc, lemma_move_gains, lemma_moves_on_empty, lemma_no_moves_ends_game, lemma_settle_keeps_discs,
    lemma_settled_has_move,
};
pub use opening::lemma_opening_moves;
pub use moves::{flips_of, is_legal, legal_moves_of};
pub use search::{best_move, search_value};
pub use session::{terminal_message, turn_text, Action, Session};
