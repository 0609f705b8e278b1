use vstd::prelude::*;
use crate::bitboard::{count, lemma_count_empty, lemma_count_insert};
use crate::board::{after_move, discs_of, lemma_opening_discs, Board, BoardState, GameView};
use crate::moves::{bracket_run, flips, flips_upto, legal_set, ray};

verus! {

proof fn lemma_opening_case(s: int, t: int, w: int)
    requires
        (s == 19 && t == 27 && w == 18) || (s == 26 && t == 27 && w == 18) || (s == 37 && t == 36
            && w == 45) || (s == 44 && t == 36 && w == 45),
    ensures
        flips(set![28int, 35int], set![27int, 36int], s) == set![t],
        legal_set(set![28int, 35int], set![27int, 36int]).contains(s),
        ({
            let a = after_move(
                GameView {
                    to_move: set![28int, 35int],
                    waiting: set![27int, 36int],
                    black_moving: true,
                    state: BoardState::Ongoing,
                },
                s,
            );
            &&& !a.black_moving
            &&& a.state == BoardState::Ongoing
            &&& count(discs_of(a, true)) == 4
            &&& count(discs_of(a, false)) == 1
        }),
{
    reveal_with_fuel(flips_upto, 9);
    reveal_with_fuel(bracket_run, 3);
    reveal_with_fuel(ray, 2);
    let p = set![28int, 35int];
    let o = set![27int, 36int];
    assert(flips(p, o, s) =~= set![t]);
    assert(flips(p, o, s) != Set::<int>::empty()) by {
        assert(flips(p, o, s).contains(t));
    }
    assert(legal_set(p, o).contains(s));
    let mover = p.union(set![t]).insert(s);
    let other = o.difference(set![t]);
    let u = if t == 27 {
        36int
    } else {
        27int
    };
    assert(other =~= set![u]);
    let m = if s == 19 {
        set![19int, 27int, 28int, 35int]
    } else if s == 26 {
        set![26int, 27int, 28int, 35int]
    } else if s == 37 {
        set![28int, 35int, 36int, 37int]
    } else {
        set![28int, 35int, 36int, 44int]
    };
    assert(mover =~= m);
    assert(flips(set![u], m, w).contains(if u == 36 {
        27int
    } else {
        36int
    }));
    assert(legal_set(set![u], m).contains(w));
    assert(legal_set(set![u], m) != Set::<int>::empty());
    lemma_count_empty(64);
    lemma_count_insert(Set::empty(), u, 64);
    lemma_count_insert(Set::empty(), s, 64);
    if s == 19 {
        lemma_count_insert(set![19int], 27, 64);
        lemma_count_insert(set![19int, 27int], 28, 64);
        lemma_count_insert(set![19int, 27int, 28int], 35, 64);
    } else if s == 26 {
        lemma_count_insert(set![26int], 27, 64);
        lemma_count_insert(set![26int, 27int], 28, 64);
        lemma_count_insert(set![26int, 27int, 28int], 35, 64);
    } else {
        lemma_count_insert(Set::empty(), 28, 64);
        lemma_count_insert(set![28int], 35, 64);
        lemma_count_insert(set![28int, 35int], 36, 64);
        lemma_count_insert(set![28int, 35int, 36int], s, 64);
    }
}

/// Each of the opening's moves 19, 26, 37 and 44 is legal for black, turns
/// over exactly one white disc (27 for the first two, 36 for the others) and
/// hands the move to white in a game that goes on, with 4 black discs
/// against 1 white.
pub proof fn lemma_opening_moves(s: int)
    requires
        s == 19 || s == 26 || s == 37 || s == 44,
    ensures
        Board::new_spec().legal().contains(s),
        flips(Board::new_spec().to_move@, Board::new_spec().waiting@, s) == set![
            if s == 19 || s == 26 {
                27int
            } else {
                36int
            },
        ],
        !after_move(Board::new_spec()@, s).black_moving,
        after_move(Board::new_spec()@, s).state == BoardState::Ongoing,
        count(discs_of(after_move(Board::new_spec()@, s), true)) == 4,
        count(discs_of(after_move(Board::new_spec()@, s), false)) == 1,
{
    lemma_opening_discs();
    let t = if s == 19 || s == 26 {
        27int
    } else {
        36int
    };
    let w = if s == 19 || s == 26 {
        18int
    } else {
        45int
    };
    lemma_opening_case(s, t, w);
}

} // verus!
