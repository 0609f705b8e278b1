use vstd::prelude::*;
use crate::board::{after_move, after_pass, Board, BoardState, InvalidMove};

verus! {

/// What the session's worker does next.
#[derive(Clone, Copy, Debug, PartialEq, Eq, Structural)]
pub enum Action {
    /// Wait for the human's square.
    AwaitHuman,
    /// Search on a copy of the board and play the move found.
    EngineMove,
    /// The side to move has no legal move: pass the turn.
    Pass,
    /// The game is over: show the final message and stop.
    Finished,
}

/// One game between a human and the engine.
#[derive(Clone, Copy, Debug)]
pub struct Session {
    pub board: Board,
    pub human_black: bool,
    pub depth: u8,
}

/// The action that a session on `b` takes next, the human playing black
/// where `human_black` holds.
pub open spec fn next_action_of(b: Board, human_black: bool) -> Action {
    if b.board_state != BoardState::Ongoing {
        Action::Finished
    } else if b.legal() == Set::<int>::empty() {
        Action::Pass
    } else if b.black_moving == human_black {
        Action::AwaitHuman
    } else {
        Action::EngineMove
    }
}

impl Session {
    pub open spec fn wf(&self) -> bool {
        self.board.wf()
    }

    /// A new game from the opening position.
    pub fn new(human_black: bool, depth: u8) -> (r: Session)
        ensures
            r.wf(),
            r.board == Board::new_spec(),
            r.human_black == human_black,
            r.depth == depth,
    {
        Session { board: Board::new(), human_black, depth }
    }

    /// A copy of the current board, for display or for a search.
    pub fn snapshot(&self) -> (r: Board)
        ensures
            r == self.board,
    {
        self.board
    }

    /// What the worker does next.
    pub fn next_action(&self) -> (r: Action)
        requires
            self.wf(),
        ensures
            r == next_action_of(self.board, self.human_black),
    {
        if self.board.board_state != BoardState::Ongoing {
            Action::Finished
        } else if self.board.legal_moves().is_empty() {
            Action::Pass
        } else if self.board.black_moving == self.human_black {
            Action::AwaitHuman
        } else {
            Action::EngineMove
        }
    }

    /// Plays the human's square where it is the human's turn and the square
    /// is legal; otherwise the request is dropped and nothing changes.
    pub fn submit_human_move(&mut self, square: usize) -> (r: Result<(), InvalidMove>)
        requires
            old(self).wf(),
        ensures
            final(self).wf(),
            final(self).human_black == old(self).human_black,
            final(self).depth == old(self).depth,
            r is Ok <==> (old(self).board.board_state == BoardState::Ongoing
                && old(self).board.black_moving == old(self).human_black
                && old(self).board.legal().contains(square as int)),
            r is Ok ==> final(self).board@ == after_move(old(self).board@, square as int),
            r is Err ==> *final(self) == *old(self),
    {
        if self.board.black_moving != self.human_black {
            return Err(InvalidMove);
        }
        self.board.safe_apply_move(square)
    }

    /// Plays the engine's square where it is the engine's turn and the square
    /// is legal; otherwise nothing changes.
    pub fn apply_engine_move(&mut self, square: usize) -> (r: Result<(), InvalidMove>)
        requires
            old(self).wf(),
        ensures
            final(self).wf(),
            final(self).human_black == old(self).human_black,
            final(self).depth == old(self).depth,
            r is Ok <==> (old(self).board.board_state == BoardState::Ongoing
                && old(self).board.black_moving != old(self).human_black
                && old(self).board.legal().contains(square as int)),
            r is Ok ==> final(self).board@ == after_move(old(self).board@, square as int),
            r is Err ==> *final(self) == *old(self),
    {
        if self.board.black_moving == self.human_black {
            return Err(InvalidMove);
        }
        self.board.safe_apply_move(square)
    }

    /// Passes the turn where the side to move has no legal move.
    pub fn pass(&mut self) -> (r: Result<(), InvalidMove>)
        requires
            old(self).wf(),
        ensures
            final(self).wf(),
            final(self).human_black == old(self).human_black,
            final(self).depth == old(self).depth,
            r is Ok <==> next_action_of(old(self).board, old(self).human_black) == Action::Pass,
            r is Ok ==> final(self).board@ == after_pass(old(self).board@),
            r is Err ==> *final(self) == *old(self),
    {
        self.board.pass_move()
    }
}

/// The line that names whose turn it is.
pub fn turn_text(board: &Board) -> (r: &'static str)
    ensures
        board.black_moving ==> r@ == "Black's turn"@,
        !board.black_moving ==> r@ == "White's turn"@,
{
    if board.black_moving {
        "Black's turn"
    } else {
        "White's turn"
    }
}

/// The final message of a finished game: the winner, who is the side to
/// move on a won board, or the draw; none while the game goes on.
pub fn terminal_message(board: &Board) -> (r: Option<&'static str>)
    ensures
        board.board_state == BoardState::Ongoing ==> r is None,
        board.board_state == BoardState::Won && board.black_moving ==> (r matches Some(m) && m@
            == "Black wins!"@),
        board.board_state == BoardState::Won && !board.black_moving ==> (r matches Some(m) && m@
            == "White wins!"@),
        board.board_state == BoardState::Drawn ==> (r matches Some(m) && m@
            == "Game ended in a draw."@),
{
    match board.board_state {
        BoardState::Ongoing => None,
        BoardState::Won => {
            if board.black_moving {
                Some("Black wins!")
            } else {
                Some("White wins!")
            }
        },
        BoardState::Drawn => Some("Game ended in a draw."),
    }
}

} // verus!
