use vstd::prelude::*;
use crate::bitboard::count;
use crate::board::{Board, GameView};
use crate::moves::legal_set;

verus! {

/// No evaluator scores beyond this bound, in either direction.
pub const EVAL_BOUND: i32 = 1000000;

/// What holding a corner is worth.
pub const CORNER_WEIGHT: i32 = 25;

/// What holding the square diagonally next to an empty corner costs.
pub const X_SQUARE_PENALTY: i32 = 10;

/// A scoring of positions from the side to move's point of view: higher is
/// better for the side to move.
pub trait Evaluator {
    /// The score of `v`.
    spec fn value(&self, v: GameView) -> int;

    /// Scores `board`.
    fn evaluate(&self, board: &Board) -> (r: i32)
        requires
            board.wf(),
        ensures
            r as int == self.value(board@),
            -EVAL_BOUND <= r <= EVAL_BOUND,
    ;
}

/// The worth of one corner `c` with its diagonal neighbour `x`, for `p`
/// against `o`.
pub open spec fn corner_term(p: Set<int>, o: Set<int>, c: int, x: int) -> int {
    if p.contains(c) {
        CORNER_WEIGHT as int
    } else if o.contains(c) {
        -CORNER_WEIGHT
    } else if p.contains(x) {
        -X_SQUARE_PENALTY
    } else if o.contains(x) {
        X_SQUARE_PENALTY as int
    } else {
        0
    }
}

/// Corners held, and squares next to empty corners held, for `p` against `o`.
pub open spec fn positional(p: Set<int>, o: Set<int>) -> int {
    corner_term(p, o, 0, 9) + corner_term(p, o, 7, 14) + corner_term(p, o, 56, 49) + corner_term(
        p,
        o,
        63,
        54,
    )
}

/// Disc difference plus mobility difference plus the positional term, for
/// the side to move.
pub open spec fn heuristic(v: GameView) -> int {
    let p = v.to_move;
    let o = v.waiting;
    (count(p) - count(o)) + (count(legal_set(p, o)) - count(legal_set(o, p))) + positional(p, o)
}

/// The discs of the side to move minus those of the side waiting.
pub open spec fn disc_difference(v: GameView) -> int {
    count(v.to_move) - count(v.waiting)
}

fn corner_score(b: &Board, c: usize, x: usize) -> (r: i32)
    requires
        c < 64,
        x < 64,
    ensures
        r as int == corner_term(b.to_move@, b.waiting@, c as int, x as int),
{
    if b.to_move.contains(c) {
        CORNER_WEIGHT
    } else if b.waiting.contains(c) {
        -CORNER_WEIGHT
    } else if b.to_move.contains(x) {
        -X_SQUARE_PENALTY
    } else if b.waiting.contains(x) {
        X_SQUARE_PENALTY
    } else {
        0
    }
}

/// The built-in heuristic score of `board` for the side to move.
pub fn score(board: &Board) -> (r: i32)
    ensures
        r as int == heuristic(board@),
        -300 <= r <= 300,
{
    let discs = board.to_move.count() as i32 - board.waiting.count() as i32;
    let mine = board.legal_moves().count() as i32;
    let theirs = crate::moves::legal_moves_of(&board.waiting, &board.to_move).count() as i32;
    let pos = corner_score(board, 0, 9) + corner_score(board, 7, 14) + corner_score(board, 56, 49)
        + corner_score(board, 63, 54);
    discs + (mine - theirs) + pos
}

/// The built-in heuristic: discs, mobility and corners.
#[derive(Clone, Copy, Debug)]
pub struct Heuristic;

impl Evaluator for Heuristic {
    open spec fn value(&self, v: GameView) -> int {
        heuristic(v)
    }

    fn evaluate(&self, board: &Board) -> (r: i32) {
        score(board)
    }
}

/// A plain evaluator: the disc difference alone.
#[derive(Clone, Copy, Debug)]
pub struct DiscDifference;

impl Evaluator for DiscDifference {
    open spec fn value(&self, v: GameView) -> int {
        disc_difference(v)
    }

    fn evaluate(&self, board: &Board) -> (r: i32) {
        board.to_move.count() as i32 - board.waiting.count() as i32
    }
}

} // verus!
