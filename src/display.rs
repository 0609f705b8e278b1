use vstd::prelude::*;
use crate::board::{Board, GameView};

verus! {

/// The colours of the board's display, each as 0xRRGGBB.
#[derive(Clone, Copy, Debug)]
pub struct Colorscheme {
    /// The two colours of the squares, alternating.
    pub board: (u32, u32),
    pub black: u32,
    pub white: u32,
    /// The marker of a legal move while black is to move.
    pub black_move: u32,
    /// The marker of a legal move while white is to move.
    pub white_move: u32,
}

impl Default for Colorscheme {
    fn default() -> (r: Colorscheme)
        ensures
            r == (Colorscheme {
                board: (0x3a911a, 0x4ba30b),
                black: 0x000000,
                white: 0xffffff,
                black_move: 0x3f9e9b,
                white_move: 0x3f9e9b,
            }),
    {
        Colorscheme {
            board: (0x3a911a, 0x4ba30b),
            black: 0x000000,
            white: 0xffffff,
            black_move: 0x3f9e9b,
            white_move: 0x3f9e9b,
        }
    }
}

/// How one square is drawn: its background and, where there is one, the
/// colour of the disc or legal-move marker on it.
#[derive(Clone, Copy, Debug, PartialEq, Eq, Structural)]
pub struct SquarePaint {
    pub background: u32,
    pub disc: Option<u32>,
}

/// How the square in row `i` and column `j`, square `8 * i + j`, is drawn on the board
/// `v` whose side to move has the legal moves `moves`.
pub open spec fn paint_of(v: GameView, moves: Set<int>, scheme: Colorscheme, i: int, j: int) -> SquarePaint {
    let s = i * 8 + j;
    let (mover, other, marker) = if v.black_moving {
        (scheme.black, scheme.white, scheme.black_move)
    } else {
        (scheme.white, scheme.black, scheme.white_move)
    };
    SquarePaint {
        background: if (i + j) % 2 == 0 {
            scheme.board.0
        } else {
            scheme.board.1
        },
        disc: if v.to_move.contains(s) {
            Some(mover)
        } else if v.waiting.contains(s) {
            Some(other)
        } else if moves.contains(s) {
            Some(marker)
        } else {
            None
        },
    }
}

/// How each square of `board` is drawn, the square in row `i` and column `j`
/// at index `8 * i + j`: discs in their side's colour, legal moves of the side to move
/// marked.
pub fn paint_board(board: &Board, scheme: &Colorscheme) -> (r: Vec<SquarePaint>)
    ensures
        r@.len() == 64,
        forall|i: int, j: int|
            0 <= i < 8 && 0 <= j < 8 ==> #[trigger] r@[i * 8 + j] == paint_of(
                board@,
                board.legal(),
                *scheme,
                i,
                j,
            ),
{
    let moves = board.legal_moves();
    let (mover, other, marker) = if board.black_moving {
        (scheme.black, scheme.white, scheme.black_move)
    } else {
        (scheme.white, scheme.black, scheme.white_move)
    };
    let mut r: Vec<SquarePaint> = Vec::new();
    let mut i: usize = 0;
    while i < 8
        invariant
            i <= 8,
            moves@ == board.legal(),
            r@.len() == i * 8,
            forall|a: int, b: int|
                0 <= a < i && 0 <= b < 8 ==> #[trigger] r@[a * 8 + b] == paint_of(
                    board@,
                    board.legal(),
                    *scheme,
                    a,
                    b,
                ),
            board.black_moving ==> (mover, other, marker) == (scheme.black, scheme.white, scheme.black_move),
            !board.black_moving ==> (mover, other, marker) == (scheme.white, scheme.black, scheme.white_move),
        decreases 8 - i,
    {
        let mut j: usize = 0;
        while j < 8
            invariant
                i < 8,
                j <= 8,
                moves@ == board.legal(),
                r@.len() == i * 8 + j,
                forall|a: int, b: int|
                    (0 <= a < i && 0 <= b < 8) || (a == i && 0 <= b < j) ==> #[trigger] r@[a * 8 + b]
                        == paint_of(board@, board.legal(), *scheme, a, b),
                board.black_moving ==> (mover, other, marker) == (scheme.black, scheme.white, scheme.black_move),
                !board.black_moving ==> (mover, other, marker) == (scheme.white, scheme.black, scheme.white_move),
            decreases 8 - j,
        {
            let s = i * 8 + j;
            let background = if (i + j) % 2 == 0 {
                scheme.board.0
            } else {
                scheme.board.1
            };
            let disc = if board.to_move.contains(s) {
                Some(mover)
            } else if board.waiting.contains(s) {
                Some(other)
            } else if moves.contains(s) {
                Some(marker)
            } else {
                None
            };
            let ghost before = r@;
            r.push(SquarePaint { background, disc });
            proof {
                assert forall|a: int, b: int|
                    (0 <= a < i && 0 <= b < 8) || (a == i && 0 <= b < j + 1) implies #[trigger] r@[a
                        * 8 + b] == paint_of(board@, board.legal(), *scheme, a, b) by {
                    if a == i && b == j {
                    } else {
                        assert(a * 8 + b < i * 8 + j);
                        assert(r@[a * 8 + b] == before[a * 8 + b]);
                    }
                }
            }
            j = j + 1;
        }
        i = i + 1;
    }
    r
}

} // verus!
