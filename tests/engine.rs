use othello_play::{
    best_move, flips_of, is_legal, legal_moves_of, score, search_value, BitBoard, Board, BoardState,
    DiscDifference, Evaluator, Heuristic, InvalidMove,
};

fn bits(squares: &[usize]) -> BitBoard {
    let mut b = BitBoard::empty();
    for &s in squares {
        b = b.union(&BitBoard::single(s));
    }
    b
}

fn total(b: &Board) -> u32 {
    b.to_move.count() + b.waiting.count() + b.empty_squares().count()
}

#[test]
fn bitboard_set_algebra() {
    let a = bits(&[0, 5, 63]);
    let b = bits(&[5, 7]);
    assert_eq!(a.union(&b).squares(), vec![0, 5, 7, 63]);
    assert_eq!(a.intersection(&b).squares(), vec![5]);
    assert_eq!(a.difference(&b).squares(), vec![0, 63]);
    assert_eq!(a.complement().count(), 61);
    assert!(!a.complement().contains(63));
    assert!(a.contains(63));
    assert!(!a.contains(64));
    assert!(BitBoard::empty().is_empty());
    assert!(!a.is_empty());
    assert_eq!(a.count(), 3);
    assert_eq!(a.squares(), a.squares());
}

#[test]
fn opening_has_four_canonical_moves() {
    let b = Board::new();
    assert!(b.black_moving);
    assert_eq!(b.board_state, BoardState::Ongoing);
    assert_eq!(b.to_move.squares(), vec![28, 35]);
    assert_eq!(b.waiting.squares(), vec![27, 36]);
    assert_eq!(b.legal_moves().squares(), vec![19, 26, 37, 44]);
}

#[test]
fn each_opening_move_flips_one_disc_and_hands_turn_to_white() {
    let b = Board::new();
    for (s, flipped) in [(19, 27), (26, 27), (37, 36), (44, 36)] {
        assert_eq!(flips_of(&b.to_move, &b.waiting, s).squares(), vec![flipped]);
        let a = b.apply_move(s);
        assert!(!a.black_moving);
        assert_eq!(a.board_state, BoardState::Ongoing);
        assert_eq!(a.black_count(), 4);
        assert_eq!(a.white_count(), 1);
        assert!(a.waiting.contains(s));
        assert!(a.waiting.contains(flipped));
    }
}

#[test]
fn discs_and_empty_squares_number_sixty_four() {
    let mut b = Board::new();
    assert_eq!(total(&b), 64);
    for _ in 0..10 {
        let m = best_move(&Heuristic, &b, 2);
        b = b.apply_move(m);
        assert_eq!(total(&b), 64);
        if b.board_state != BoardState::Ongoing {
            break;
        }
    }
}

#[test]
fn legal_moves_are_on_empty_squares() {
    let mut b = Board::new();
    for _ in 0..12 {
        let moves = b.legal_moves();
        assert!(moves.intersection(&b.to_move).is_empty());
        assert!(moves.intersection(&b.waiting).is_empty());
        if moves.is_empty() {
            break;
        }
        b = b.apply_move(best_move(&DiscDifference, &b, 1));
    }
}

#[test]
fn a_move_gains_at_least_two_discs() {
    let mut b = Board::new();
    for _ in 0..12 {
        if b.board_state != BoardState::Ongoing {
            break;
        }
        for s in b.legal_moves().squares() {
            let before = b.to_move.count();
            let theirs = b.waiting.count();
            let a = b.apply_move(s);
            let (mine_after, theirs_after) = if a.black_moving == b.black_moving {
                (a.to_move.count(), a.waiting.count())
            } else {
                (a.waiting.count(), a.to_move.count())
            };
            assert!(mine_after >= before + 2);
            assert!(theirs_after + 1 <= theirs);
        }
        b = b.apply_move(best_move(&Heuristic, &b, 1));
    }
}

#[test]
fn illegal_square_is_refused_and_board_unchanged() {
    let mut b = Board::new();
    let before = b;
    assert_eq!(b.safe_apply_move(0), Err(InvalidMove));
    assert_eq!(b, before);
    assert_eq!(b.safe_apply_move(27), Err(InvalidMove));
    assert_eq!(b, before);
    assert_eq!(b.safe_apply_move(64), Err(InvalidMove));
    assert_eq!(b.safe_apply_move(1000), Err(InvalidMove));
    assert_eq!(b, before);
    assert!(!is_legal(&b.to_move, &b.waiting, 20));
    assert_eq!(b.safe_apply_move(19), Ok(()));
    assert_eq!(b, before.apply_move(19));
}

#[test]
fn best_move_is_legal_at_every_depth() {
    let b = Board::new();
    let legal = b.legal_moves();
    for depth in 0..5u8 {
        assert!(legal.contains(best_move(&Heuristic, &b, depth)));
        assert!(legal.contains(best_move(&DiscDifference, &b, depth)));
    }
    let mut c = b.apply_move(37);
    c = c.apply_move(best_move(&Heuristic, &c, 3));
    assert!(c.legal_moves().contains(best_move(&Heuristic, &c, 3)));
}

#[test]
fn best_move_breaks_ties_by_lowest_square() {
    // every opening move leaves the same disc difference
    assert_eq!(best_move(&DiscDifference, &Board::new(), 1), 19);
    assert_eq!(search_value(&DiscDifference, &Board::new(), 1), 3);
}

#[test]
fn opening_scores_zero_and_after_d3_minus_three() {
    let b = Board::new();
    assert_eq!(score(&b), 0);
    assert_eq!(Heuristic.evaluate(&b), 0);
    let a = b.apply_move(19);
    // white: 1 disc against 4, three moves each, no corners
    assert_eq!(legal_moves_of(&a.to_move, &a.waiting).squares(), vec![18, 20, 34]);
    assert_eq!(legal_moves_of(&a.waiting, &a.to_move).squares(), vec![37, 44, 45]);
    assert_eq!(score(&a), -3);
    assert_eq!(DiscDifference.evaluate(&a), -3);
}

#[test]
fn corner_weights_count_in_the_score() {
    // mover holds corner 0; opponent sits next to the empty corner 63
    let b = Board {
        to_move: bits(&[0, 1]),
        waiting: bits(&[54, 20]),
        black_moving: true,
        board_state: BoardState::Ongoing,
    };
    // discs 0, mobility 0 - 0, corner 25, x-square of an empty corner held by the opponent 10
    assert_eq!(b.legal_moves().count(), 0);
    assert_eq!(legal_moves_of(&b.waiting, &b.to_move).count(), 0);
    assert_eq!(score(&b), 35);
}

#[test]
fn pass_when_the_mover_has_no_move() {
    // white (to move) on 1 cannot bracket anything; black on 0 can play 2
    let mut b = Board {
        to_move: bits(&[1]),
        waiting: bits(&[0]),
        black_moving: false,
        board_state: BoardState::Ongoing,
    };
    assert!(b.legal_moves().is_empty());
    let before = b;
    assert_eq!(b.safe_apply_move(2), Err(InvalidMove));
    assert_eq!(b, before);
    assert_eq!(b.pass_move(), Ok(()));
    assert!(b.black_moving);
    assert_eq!(b.board_state, BoardState::Ongoing);
    assert_eq!(b.to_move.squares(), vec![0]);
    assert_eq!(b.legal_moves().squares(), vec![2]);
    // passing is refused while a legal move exists
    let kept = b;
    assert_eq!(b.pass_move(), Err(InvalidMove));
    assert_eq!(b, kept);
}

#[test]
fn move_that_leaves_opponent_stuck_keeps_the_turn() {
    // two pairs on edges: black 0 and 56, white 1 and 57; black plays 2,
    // white cannot bracket anything, black still has 58
    let b = Board {
        to_move: bits(&[0, 56]),
        waiting: bits(&[1, 57]),
        black_moving: true,
        board_state: BoardState::Ongoing,
    };
    let a = b.apply_move(2);
    assert_eq!(a.to_move.squares(), vec![0, 1, 2, 56]);
    assert_eq!(a.waiting.squares(), vec![57]);
    assert_eq!(a.legal_moves().squares(), vec![58]);
    assert!(a.black_moving);
    assert_eq!(a.board_state, BoardState::Ongoing);
}

#[test]
fn full_board_with_more_black_discs_is_won_by_black() {
    // black fills the last square 63 and turns over 62
    let all_but: Vec<usize> = (0..61).collect();
    let b = Board {
        to_move: bits(&[all_but.as_slice(), &[61]].concat()),
        waiting: bits(&[62]),
        black_moving: true,
        board_state: BoardState::Ongoing,
    };
    assert_eq!(b.legal_moves().squares(), vec![63]);
    let mut a = b.apply_move(63);
    assert_eq!(a.board_state, BoardState::Won);
    assert!(a.black_moving);
    assert_eq!(a.black_count(), 64);
    assert_eq!(a.white_count(), 0);
    let done = a;
    assert_eq!(a.safe_apply_move(0), Err(InvalidMove));
    assert_eq!(a.pass_move(), Err(InvalidMove));
    assert_eq!(a, done);
}

#[test]
fn full_board_won_by_white_names_white() {
    let b = Board {
        to_move: BitBoard { bits: 0x0000_0000_7FFF_FFFF },
        waiting: BitBoard { bits: 0xFFFF_FFFF_8000_0000 },
        black_moving: true,
        board_state: BoardState::Ongoing,
    };
    let mut a = b;
    assert_eq!(a.pass_move(), Ok(()));
    assert_eq!(a.board_state, BoardState::Won);
    assert!(!a.black_moving);
    assert_eq!(a.white_count(), 33);
    assert_eq!(a.black_count(), 31);
}

#[test]
fn full_board_with_equal_counts_is_drawn() {
    let mut b = Board {
        to_move: BitBoard { bits: 0x0000_0000_FFFF_FFFF },
        waiting: BitBoard { bits: 0xFFFF_FFFF_0000_0000 },
        black_moving: true,
        board_state: BoardState::Ongoing,
    };
    assert!(b.legal_moves().is_empty());
    assert_eq!(b.pass_move(), Ok(()));
    assert_eq!(b.board_state, BoardState::Drawn);
    assert_eq!(b.black_count(), 32);
    assert_eq!(b.white_count(), 32);
    let done = b;
    assert_eq!(b.safe_apply_move(3), Err(InvalidMove));
    assert_eq!(b, done);
}

#[test]
fn stuck_position_with_empty_squares_ends_by_count() {
    // neither side can move though squares are empty
    let mut b = Board {
        to_move: bits(&[0]),
        waiting: bits(&[63, 62]),
        black_moving: true,
        board_state: BoardState::Ongoing,
    };
    assert!(b.legal_moves().is_empty());
    assert!(legal_moves_of(&b.waiting, &b.to_move).is_empty());
    assert_eq!(b.pass_move(), Ok(()));
    assert_eq!(b.board_state, BoardState::Won);
    assert!(!b.black_moving);
}

#[test]
fn legal_moves_twice_give_the_same_set() {
    let mut b = Board::new();
    b = b.apply_move(26);
    let first = b.legal_moves();
    let second = b.legal_moves();
    assert_eq!(first, second);
    assert_eq!(first.squares(), second.squares());
}

#[test]
fn no_wrap_across_the_board_edge() {
    // black on 8 (row 1, col 0), white on 7 (row 0, col 7): 6 is no move,
    // a wrapping shift would see 7 then 8 as one line
    let b = Board {
        to_move: bits(&[8]),
        waiting: bits(&[7]),
        black_moving: true,
        board_state: BoardState::Ongoing,
    };
    assert!(b.legal_moves().is_empty());
}

#[test]
fn each_move_puts_one_more_disc_on_the_board() {
    let mut b = Board::new();
    let mut discs = b.to_move.union(&b.waiting).count();
    assert_eq!(discs, 4);
    for _ in 0..8 {
        b = b.apply_move(best_move(&Heuristic, &b, 1));
        let now = b.to_move.union(&b.waiting).count();
        assert_eq!(now, discs + 1);
        discs = now;
    }
}

#[test]
fn default_board_is_the_opening() {
    assert_eq!(Board::default(), Board::new());
}

#[test]
fn best_move_prefers_keeping_the_turn() {
    // black 0, 9, 56 against white 1, 57: playing 2 leaves white without a
    // move so black moves again; playing 58 hands white the move
    let b = Board {
        to_move: bits(&[0, 9, 56]),
        waiting: bits(&[1, 57]),
        black_moving: true,
        board_state: BoardState::Ongoing,
    };
    assert_eq!(b.legal_moves().squares(), vec![2, 58]);
    let after_2 = b.apply_move(2);
    assert!(after_2.black_moving);
    assert_eq!(score(&after_2), 55);
    let after_58 = b.apply_move(58);
    assert!(!after_58.black_moving);
    assert_eq!(score(&after_58), -54);
    assert_eq!(best_move(&Heuristic, &b, 1), 2);
    assert_eq!(search_value(&Heuristic, &b, 1), 55);
}

#[test]
fn winning_move_is_valued_for_the_winner() {
    // black fills the last square and wins, staying to move
    let all_but: Vec<usize> = (0..61).collect();
    let b = Board {
        to_move: bits(&[all_but.as_slice(), &[61]].concat()),
        waiting: bits(&[62]),
        black_moving: true,
        board_state: BoardState::Ongoing,
    };
    assert_eq!(search_value(&DiscDifference, &b, 1), 64);
}
