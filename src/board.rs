use vstd::prelude::*;
use crate::bitboard::{all_squares, count, BitBoard};
use crate::moves::{flips, flips_of, legal_moves_of, legal_set, lemma_flips_in_o};

verus! {

/// Where a game stands.
#[derive(Clone, Copy, Debug, PartialEq, Eq, Structural)]
pub enum BoardState {
    Ongoing,
    Won,
    Drawn,
}

/// A move was refused: the square is not a legal move, or the game is over.
#[derive(Clone, Copy, Debug, PartialEq, Eq, Structural)]
pub struct InvalidMove;

/// The mathematical content of a board.
pub struct GameView {
    pub to_move: Set<int>,
    pub waiting: Set<int>,
    pub black_moving: bool,
    pub state: BoardState,
}

/// The discs of black (`black`) or of white in `v`.
pub open spec fn discs_of(v: GameView, black: bool) -> Set<int> {
    if v.black_moving == black {
        v.to_move
    } else {
        v.waiting
    }
}

/// The position once `tm` is to move against `wt` (`bm`: black is `tm`):
/// the turn passes back where `tm` has no move and `wt` has one; where neither
/// has a move the game is over, won by the side with more discs, which is
/// then the side to move, or drawn.
pub open spec fn settle(tm: Set<int>, wt: Set<int>, bm: bool) -> GameView {
    if legal_set(tm, wt) != Set::<int>::empty() {
        GameView { to_move: tm, waiting: wt, black_moving: bm, state: BoardState::Ongoing }
    } else if legal_set(wt, tm) != Set::<int>::empty() {
        GameView { to_move: wt, waiting: tm, black_moving: !bm, state: BoardState::Ongoing }
    } else if count(tm) > count(wt) {
        GameView { to_move: tm, waiting: wt, black_moving: bm, state: BoardState::Won }
    } else if count(wt) > count(tm) {
        GameView { to_move: wt, waiting: tm, black_moving: !bm, state: BoardState::Won }
    } else {
        GameView { to_move: tm, waiting: wt, black_moving: bm, state: BoardState::Drawn }
    }
}

/// The position after the side to move plays the legal square `s`: `s` and
/// every bracketed disc become the mover's, then the opponent is to move,
/// as `settle` decides.
pub open spec fn after_move(v: GameView, s: int) -> GameView {
    let f = flips(v.to_move, v.waiting, s);
    settle(v.waiting.difference(f), v.to_move.union(f).insert(s), !v.black_moving)
}

/// The position after the side to move passes.
pub open spec fn after_pass(v: GameView) -> GameView {
    settle(v.waiting, v.to_move, !v.black_moving)
}

/// An Othello position: the discs of the side to move and of the side
/// waiting, whose turn it is, and whether the game goes on.
#[derive(Clone, Copy, Debug, PartialEq, Eq, Structural)]
pub struct Board {
    pub to_move: BitBoard,
    pub waiting: BitBoard,
    pub black_moving: bool,
    pub board_state: BoardState,
}

impl View for Board {
    type V = GameView;

    open spec fn view(&self) -> GameView {
        GameView {
            to_move: self.to_move@,
            waiting: self.waiting@,
            black_moving: self.black_moving,
            state: self.board_state,
        }
    }
}

impl Board {
    /// No square holds two discs.
    pub open spec fn wf(&self) -> bool {
        self.to_move@.disjoint(self.waiting@)
    }

    /// The legal moves of the side to move.
    pub open spec fn legal(&self) -> Set<int> {
        legal_set(self.to_move@, self.waiting@)
    }

    /// The opening position.
    pub open spec fn new_spec() -> Board {
        Board {
            to_move: BitBoard { bits: 0x0000_0008_1000_0000 },
            waiting: BitBoard { bits: 0x0000_0010_0800_0000 },
            black_moving: true,
            board_state: BoardState::Ongoing,
        }
    }

    /// The standard opening: black to move, each side on its two diagonal
    /// centre squares (black on 28 and 35, white on 27 and 36).
    pub fn new() -> (r: Board)
        ensures
            r == Board::new_spec(),
            r.wf(),
            r.to_move@ == set![28int, 35int],
            r.waiting@ == set![27int, 36int],
            r.black_moving,
            r.board_state == BoardState::Ongoing,
    {
        let black = BitBoard { bits: 0x0000_0008_1000_0000 };
        let white = BitBoard { bits: 0x0000_0010_0800_0000 };
        proof {
            lemma_opening_discs();
        }
        Board { to_move: black, waiting: white, black_moving: true, board_state: BoardState::Ongoing }
    }

    /// The legal moves of the side to move.
    pub fn legal_moves(&self) -> (r: BitBoard)
        ensures
            r@ == self.legal(),
    {
        legal_moves_of(&self.to_move, &self.waiting)
    }

    /// The squares that hold no disc.
    pub fn empty_squares(&self) -> (r: BitBoard)
        ensures
            r@ == all_squares().difference(self.to_move@.union(self.waiting@)),
    {
        self.to_move.union(&self.waiting).complement()
    }

    /// The number of black discs.
    pub fn black_count(&self) -> (r: u32)
        ensures
            r as nat == count(discs_of(self@, true)),
    {
        if self.black_moving {
            self.to_move.count()
        } else {
            self.waiting.count()
        }
    }

    /// The number of white discs.
    pub fn white_count(&self) -> (r: u32)
        ensures
            r as nat == count(discs_of(self@, false)),
    {
        if self.black_moving {
            self.waiting.count()
        } else {
            self.to_move.count()
        }
    }

    /// Plays the legal square `square` for the side to move.
    pub fn apply_move(&self, square: usize) -> (r: Board)
        requires
            self.wf(),
            self.legal().contains(square as int),
        ensures
            r.wf(),
            r@ == after_move(self@, square as int),
    {
        let f = flips_of(&self.to_move, &self.waiting, square);
        let mover = self.to_move.union(&f).union(&BitBoard::single(square));
        let other = self.waiting.difference(&f);
        proof {
            lemma_flips_in_o(self.to_move@, self.waiting@, square as int);
            assert(mover@ =~= self.to_move@.union(f@).insert(square as int));
        }
        settle_exec(other, mover, !self.black_moving)
    }

    /// Plays `square` for the side to move where the game goes on and the
    /// square is legal; otherwise refuses it and leaves the board as it was.
    pub fn safe_apply_move(&mut self, square: usize) -> (r: Result<(), InvalidMove>)
        requires
            old(self).wf(),
        ensures
            final(self).wf(),
            r is Ok <==> (old(self).board_state == BoardState::Ongoing && old(self).legal().contains(
                square as int,
            )),
            r is Ok ==> final(self)@ == after_move(old(self)@, square as int),
            r is Err ==> *final(self) == *old(self),
    {
        if self.board_state != BoardState::Ongoing {
            return Err(InvalidMove);
        }
        if !is_legal_here(self, square) {
            return Err(InvalidMove);
        }
        *self = self.apply_move(square);
        Ok(())
    }

    /// Passes the turn where the game goes on and the side to move has no
    /// legal move; otherwise refuses and leaves the board as it was.
    pub fn pass_move(&mut self) -> (r: Result<(), InvalidMove>)
        requires
            old(self).wf(),
        ensures
            final(self).wf(),
            r is Ok <==> (old(self).board_state == BoardState::Ongoing && old(self).legal()
                == Set::<int>::empty()),
            r is Ok ==> final(self)@ == after_pass(old(self)@),
            r is Err ==> *final(self) == *old(self),
    {
        if self.board_state != BoardState::Ongoing {
            return Err(InvalidMove);
        }
        if !self.legal_moves().is_empty() {
            return Err(InvalidMove);
        }
        *self = settle_exec(self.waiting, self.to_move, !self.black_moving);
        Ok(())
    }
}

impl Default for Board {
    /// The opening position.
    fn default() -> (r: Board)
        ensures
            r == Board::new_spec(),
    {
        Board::new()
    }
}

/// The opening's discs: black on 28 and 35, white on 27 and 36.
pub proof fn lemma_opening_discs()
    ensures
        Board::new_spec().to_move@ == set![28int, 35int],
        Board::new_spec().waiting@ == set![27int, 36int],
{
    let black = Board::new_spec().to_move;
    let white = Board::new_spec().waiting;
    assert forall|i: int| black@.contains(i) <==> (i == 28 || i == 35) by {
        if 0 <= i < 64 {
            let j = i as u64;
            assert((0x0000_0008_1000_0000u64 >> j) & 1 == 1 <==> (j == 28 || j == 35))
                by (bit_vector)
                requires
                    j < 64,
            ;
        }
    }
    assert forall|i: int| white@.contains(i) <==> (i == 27 || i == 36) by {
        if 0 <= i < 64 {
            let j = i as u64;
            assert((0x0000_0010_0800_0000u64 >> j) & 1 == 1 <==> (j == 27 || j == 36))
                by (bit_vector)
                requires
                    j < 64,
            ;
        }
    }
    assert(black@ =~= set![28int, 35int]);
    assert(white@ =~= set![27int, 36int]);
}

fn is_legal_here(b: &Board, square: usize) -> (r: bool)
    ensures
        r == b.legal().contains(square as int),
{
    crate::moves::is_legal(&b.to_move, &b.waiting, square)
}

/// The board that `settle` describes.
pub(crate) fn settle_exec(tm: BitBoard, wt: BitBoard, bm: bool) -> (r: Board)
    requires
        tm@.disjoint(wt@),
    ensures
        r.wf(),
        r@ == settle(tm@, wt@, bm),
{
    if !legal_moves_of(&tm, &wt).is_empty() {
        Board { to_move: tm, waiting: wt, black_moving: bm, board_state: BoardState::Ongoing }
    } else if !legal_moves_of(&wt, &tm).is_empty() {
        Board { to_move: wt, waiting: tm, black_moving: !bm, board_state: BoardState::Ongoing }
    } else {
        let a = tm.count();
        let b = wt.count();
        if a > b {
            Board { to_move: tm, waiting: wt, black_moving: bm, board_state: BoardState::Won }
        } else if b > a {
            Board { to_move: wt, waiting: tm, black_moving: !bm, board_state: BoardState::Won }
        } else {
            Board { to_move: tm, waiting: wt, black_moving: bm, board_state: BoardState::Drawn }
        }
    }
}

} // verus!
