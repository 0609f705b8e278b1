use vstd::prelude::*;
use crate::bitboard::BitBoard;
use crate::board::{after_move, after_pass, settle_exec, Board, BoardState, GameView};
use crate::eval::{Evaluator, EVAL_BOUND};
use crate::moves::legal_set;

verus! {

/// The negamax value of `v` searched `depth` plies deep, for the side to
/// move. A pass costs no depth; its value is seen from the side that then
/// moves and negated where that side changed.
pub open spec fn negamax<E: Evaluator>(e: E, v: GameView, depth: nat) -> int
    decreases depth, 66int,
{
    if depth == 0 || v.state != BoardState::Ongoing {
        e.value(v)
    } else if legal_set(v.to_move, v.waiting) != Set::<int>::empty() {
        scan_value(e, v, depth)
    } else {
        let w = after_pass(v);
        let x = if w.state != BoardState::Ongoing || legal_set(w.to_move, w.waiting)
            == Set::<int>::empty() {
            e.value(w)
        } else {
            scan_value(e, w, depth)
        };
        if w.black_moving == v.black_moving {
            x
        } else {
            -x
        }
    }
}

/// The value of the best move of `v`, or the score of `v` where it has none.
pub open spec fn scan_value<E: Evaluator>(e: E, v: GameView, depth: nat) -> int
    decreases depth, 65int,
{
    match scan(e, v, depth, 0) {
        Some(b) => b.0,
        None => e.value(v),
    }
}

/// The value for the side to move in `v` of playing `i`: the value of the
/// position it leads to, searched `depth - 1` plies deep, negated where the
/// other side is then to move (kept where the turn passes back or the mover
/// has won and stays to move).
pub open spec fn move_value<E: Evaluator>(e: E, v: GameView, depth: nat, i: int) -> int
    decreases depth, 0int,
{
    let c = after_move(v, i);
    let n = if depth == 0 {
        e.value(c)
    } else {
        negamax(e, c, (depth - 1) as nat)
    };
    if c.black_moving != v.black_moving {
        -n
    } else {
        n
    }
}

/// Among the legal moves of `v` at square `i` or above: the best
/// `move_value`, and the lowest square that reaches it.
pub open spec fn scan<E: Evaluator>(e: E, v: GameView, depth: nat, i: int) -> Option<(int, int)>
    decreases depth, 64 - i,
{
    if i >= 64 || depth == 0 {
        None
    } else {
        let rest = scan(e, v, depth, i + 1);
        if legal_set(v.to_move, v.waiting).contains(i) {
            let val = move_value(e, v, depth, i);
            match rest {
                Some(b) => if val >= b.0 {
                    Some((val, i))
                } else {
                    rest
                },
                None => Some((val, i)),
            }
        } else {
            rest
        }
    }
}

/// The depth a search of `depth` plies runs at: at least one.
pub open spec fn search_depth(depth: nat) -> nat {
    if depth == 0 {
        1
    } else {
        depth
    }
}

/// The move that `best_move` picks.
pub open spec fn best_square<E: Evaluator>(e: E, v: GameView, depth: nat) -> int {
    match scan(e, v, search_depth(depth), 0) {
        Some(b) => b.1,
        None => -1,
    }
}

/// The square chosen by a scan is a legal move at or above `i`, and a scan
/// finds a move wherever one lies at or above `i`.
pub proof fn lemma_scan_legal<E: Evaluator>(e: E, v: GameView, depth: nat, i: int)
    requires
        depth >= 1,
    ensures
        scan(e, v, depth, i) matches Some(b) ==> legal_set(v.to_move, v.waiting).contains(b.1)
            && i <= b.1,
        (exists|j: int| i <= j && #[trigger] legal_set(v.to_move, v.waiting).contains(j))
            ==> scan(e, v, depth, i) is Some,
    decreases 64 - i,
{
    if i < 64 {
        lemma_scan_legal(e, v, depth, i + 1);
        if exists|j: int| i <= j && #[trigger] legal_set(v.to_move, v.waiting).contains(j) {
            let j = choose|j: int| i <= j && #[trigger] legal_set(v.to_move, v.waiting).contains(j);
            if j != i {
                assert(legal_set(v.to_move, v.waiting).contains(j) && i + 1 <= j);
            }
        }
    } else {
        if exists|j: int| i <= j && #[trigger] legal_set(v.to_move, v.waiting).contains(j) {
            let j = choose|j: int| i <= j && #[trigger] legal_set(v.to_move, v.waiting).contains(j);
            assert(j < 64);
        }
    }
}

/// Whether an executable scan result stands for a spec one.
pub open spec fn same_choice(r: Option<(i32, usize)>, s: Option<(int, int)>) -> bool {
    match r {
        Some(x) => s == Some((x.0 as int, x.1 as int)) && -EVAL_BOUND <= x.0 <= EVAL_BOUND,
        None => s is None,
    }
}

fn negamax_exec<E: Evaluator>(e: &E, b: &Board, depth: u8) -> (r: i32)
    requires
        b.wf(),
    ensures
        r as int == negamax(*e, b@, depth as nat),
        -EVAL_BOUND <= r <= EVAL_BOUND,
    decreases depth, 1int,
{
    if depth == 0 || b.board_state != BoardState::Ongoing {
        return e.evaluate(b);
    }
    let moves = b.legal_moves();
    if !moves.is_empty() {
        match scan_exec(e, b, depth, &moves) {
            Some((v, _)) => v,
            None => e.evaluate(b),
        }
    } else {
        let w = settle_exec(b.waiting, b.to_move, !b.black_moving);
        let wmoves = w.legal_moves();
        let x = if w.board_state != BoardState::Ongoing || wmoves.is_empty() {
            e.evaluate(&w)
        } else {
            match scan_exec(e, &w, depth, &wmoves) {
                Some((v, _)) => v,
                None => e.evaluate(&w),
            }
        };
        if w.black_moving == b.black_moving {
            x
        } else {
            -x
        }
    }
}

fn scan_exec<E: Evaluator>(e: &E, b: &Board, depth: u8, moves: &BitBoard) -> (r: Option<
    (i32, usize),
>)
    requires
        b.wf(),
        depth >= 1,
        moves@ == b.legal(),
    ensures
        same_choice(r, scan(*e, b@, depth as nat, 0)),
    decreases depth, 0int,
{
    let mut best: Option<(i32, usize)> = None;
    let mut i: usize = 64;
    while i > 0
        invariant
            i <= 64,
            b.wf(),
            depth >= 1,
            moves@ == b.legal(),
            same_choice(best, scan(*e, b@, depth as nat, i as int)),
        decreases i,
    {
        i = i - 1;
        if moves.contains(i) {
            let child = b.apply_move(i);
            let cv = negamax_exec(e, &child, depth - 1);
            let val = if child.black_moving != b.black_moving {
                -cv
            } else {
                cv
            };
            proof {
                assert(val as int == move_value(*e, b@, depth as nat, i as int));
            }
            match best {
                Some((bv, _)) => {
                    if val >= bv {
                        best = Some((val, i));
                    }
                },
                None => {
                    best = Some((val, i));
                },
            }
        }
    }
    best
}

/// The negamax value of `board` searched `depth` plies deep, for the side to
/// move, as `eval` scores the leaves.
pub fn search_value<E: Evaluator>(eval: &E, board: &Board, depth: u8) -> (r: i32)
    requires
        board.wf(),
    ensures
        r as int == negamax(*eval, board@, depth as nat),
        -EVAL_BOUND <= r <= EVAL_BOUND,
{
    negamax_exec(eval, board, depth)
}

/// The legal move with the best negamax value, searched `depth` plies deep
/// (a depth of 0 searches one ply); ties go to the lowest square.
pub fn best_move<E: Evaluator>(eval: &E, board: &Board, depth: u8) -> (r: usize)
    requires
        board.wf(),
        board.board_state == BoardState::Ongoing,
        board.legal() != Set::<int>::empty(),
    ensures
        board.legal().contains(r as int),
        r as int == best_square(*eval, board@, depth as nat),
{
    let d: u8 = if depth == 0 {
        1
    } else {
        depth
    };
    let moves = board.legal_moves();
    let found = scan_exec(eval, board, d, &moves);
    proof {
        let j = choose|j: int| board.legal().contains(j);
        if !board.legal().contains(j) {
            assert(board.legal() =~= Set::<int>::empty());
        }
        assert(0 <= j);
        lemma_scan_legal(*eval, board@, d as nat, 0);
    }
    match found {
        Some((_, s)) => s,
        None => 0,
    }
}

} // verus!
