use othello_play::{
    best_move, paint_board, terminal_message, turn_text, Action, BitBoard, Board, BoardState,
    Colorscheme, Heuristic, InvalidMove, Session, SquarePaint,
};

#[test]
fn session_alternates_human_and_engine() {
    let mut s = Session::new(true, 3);
    assert_eq!(s.next_action(), Action::AwaitHuman);
    assert_eq!(s.apply_engine_move(19), Err(InvalidMove));
    assert_eq!(s.submit_human_move(0), Err(InvalidMove));
    assert_eq!(s.snapshot(), Board::new());
    assert_eq!(s.submit_human_move(19), Ok(()));
    assert_eq!(s.next_action(), Action::EngineMove);
    assert_eq!(s.submit_human_move(18), Err(InvalidMove));
    let copy = s.snapshot();
    let m = best_move(&Heuristic, &copy, s.depth);
    assert_eq!(s.apply_engine_move(m), Ok(()));
    assert_eq!(s.next_action(), Action::AwaitHuman);
}

#[test]
fn engine_plays_black_when_human_is_white() {
    let s = Session::new(false, 2);
    assert_eq!(s.next_action(), Action::EngineMove);
}

#[test]
fn session_passes_and_finishes() {
    let mut s = Session::new(true, 1);
    s.board = Board {
        to_move: BitBoard { bits: 1 << 1 },
        waiting: BitBoard { bits: 1 },
        black_moving: false,
        board_state: BoardState::Ongoing,
    };
    assert_eq!(s.next_action(), Action::Pass);
    assert_eq!(s.pass(), Ok(()));
    assert_eq!(s.next_action(), Action::AwaitHuman);
    assert_eq!(s.pass(), Err(InvalidMove));
    assert_eq!(s.submit_human_move(2), Ok(()));
    assert_eq!(s.next_action(), Action::Finished);
    assert_eq!(terminal_message(&s.board), Some("Black wins!"));
}

#[test]
fn messages_name_turn_winner_and_draw() {
    let b = Board::new();
    assert_eq!(turn_text(&b), "Black's turn");
    assert_eq!(terminal_message(&b), None);
    let w = b.apply_move(19);
    assert_eq!(turn_text(&w), "White's turn");
    let won = Board { board_state: BoardState::Won, ..w };
    assert_eq!(terminal_message(&won), Some("White wins!"));
    let drawn = Board { board_state: BoardState::Drawn, ..w };
    assert_eq!(terminal_message(&drawn), Some("Game ended in a draw."));
}

#[test]
fn paint_shows_discs_and_move_markers() {
    let scheme = Colorscheme::default();
    assert_eq!(scheme.board, (0x3a911a, 0x4ba30b));
    let p = paint_board(&Board::new(), &scheme);
    assert_eq!(p.len(), 64);
    // square 27 (3, 3): white, waiting while black moves
    assert_eq!(p[27], SquarePaint { background: 0x3a911a, disc: Some(0xffffff) });
    // square 28 (3, 4): black, to move
    assert_eq!(p[28], SquarePaint { background: 0x4ba30b, disc: Some(0x000000) });
    // square 19 (2, 3): a legal move of black
    assert_eq!(p[19], SquarePaint { background: 0x4ba30b, disc: Some(0x3f9e9b) });
    assert_eq!(p[0], SquarePaint { background: 0x3a911a, disc: None });
    let custom = Colorscheme { white_move: 0x123456, ..scheme };
    let q = paint_board(&Board::new().apply_move(19), &custom);
    assert_eq!(q[18].disc, Some(0x123456));
    assert_eq!(q[19].disc, Some(0x000000));
}
