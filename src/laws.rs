use vstd::prelude::*;
use crate::bitboard::{all_squares, count, lemma_count_bound, lemma_count_partition, lemma_count_subset};
use crate::board::{after_move, discs_of, settle, Board, BoardState};
use crate::moves::{flips, legal_set, lemma_flips_in_o};

verus! {

/// On a well-formed board the discs of the two sides and the empty squares
/// together number 64.
pub proof fn lemma_disc_total(b: Board)
    requires
        b.wf(),
    ensures
        count(b.to_move@) + count(b.waiting@) + count(
            all_squares().difference(b.to_move@.union(b.waiting@)),
        ) == 64,
{
    let e = all_squares().difference(b.to_move@.union(b.waiting@));
    assert forall|i: int| 0 <= i < 64 implies (#[trigger] b.to_move@.contains(i) as int) + (
    b.waiting@.contains(i) as int) + (e.contains(i) as int) == 1 by {
        assert(!(b.to_move@.contains(i) && b.waiting@.contains(i)));
    }
    lemma_count_partition(b.to_move@, b.waiting@, e, 64);
}

/// A legal move is never a square that already holds a disc.
pub proof fn lemma_moves_on_empty(p: Set<int>, o: Set<int>)
    ensures
        forall|s: int| #[trigger] legal_set(p, o).contains(s) ==> !p.contains(s) && !o.contains(s),
{
}

/// Legal moves depend on the discs alone: equal discs give equal move sets,
/// however often they are computed.
pub proof fn lemma_legal_moves_deterministic(a: Board, b: Board)
    requires
        a.to_move@ == b.to_move@,
        a.waiting@ == b.waiting@,
    ensures
        a.legal() == b.legal(),
{
}

/// Settling keeps each side's discs: it only decides whose turn it is and
/// whether the game is over.
pub proof fn lemma_settle_keeps_discs(tm: Set<int>, wt: Set<int>, bm: bool)
    ensures
        discs_of(settle(tm, wt, bm), bm) == tm,
        discs_of(settle(tm, wt, bm), !bm) == wt,
{
}

/// A settled position that goes on has a legal move for the side to move.
pub proof fn lemma_settled_has_move(tm: Set<int>, wt: Set<int>, bm: bool)
    ensures
        settle(tm, wt, bm).state == BoardState::Ongoing ==> legal_set(
            settle(tm, wt, bm).to_move,
            settle(tm, wt, bm).waiting,
        ) != Set::<int>::empty(),
{
}

/// Where neither side has a legal move the game ends: won by the side with
/// more discs, which is then the side to move, and drawn on equal counts.
pub proof fn lemma_no_moves_ends_game(tm: Set<int>, wt: Set<int>, bm: bool)
    requires
        legal_set(tm, wt) == Set::<int>::empty(),
        legal_set(wt, tm) == Set::<int>::empty(),
    ensures
        settle(tm, wt, bm).state == (if count(tm) != count(wt) {
            BoardState::Won
        } else {
            BoardState::Drawn
        }),
        settle(tm, wt, bm).state == BoardState::Won ==> count(settle(tm, wt, bm).to_move) > count(
            settle(tm, wt, bm).waiting,
        ),
{
}

/// On a full board neither side has a legal move.
pub proof fn lemma_full_board_has_no_moves(tm: Set<int>, wt: Set<int>)
    requires
        all_squares().subset_of(tm.union(wt)),
    ensures
        legal_set(tm, wt) == Set::<int>::empty(),
        legal_set(wt, tm) == Set::<int>::empty(),
{
    assert forall|s: int| !legal_set(tm, wt).contains(s) && !legal_set(wt, tm).contains(s) by {
        if 0 <= s < 64 {
            assert(all_squares().contains(s));
        }
    }
    assert(legal_set(tm, wt) =~= Set::<int>::empty());
    assert(legal_set(wt, tm) =~= Set::<int>::empty());
}

/// A legal move adds at least two discs to the mover (the disc placed and
/// one turned over) and takes at least one from the opponent.
pub proof fn lemma_move_gains(b: Board, s: int)
    requires
        b.wf(),
        b.legal().contains(s),
    ensures
        count(discs_of(after_move(b@, s), b.black_moving)) >= count(b.to_move@) + 2,
        count(discs_of(after_move(b@, s), !b.black_moving)) + 1 <= count(b.waiting@),
{
    let p = b.to_move@;
    let o = b.waiting@;
    let f = flips(p, o, s);
    let mover = p.union(f).insert(s);
    let other = o.difference(f);
    lemma_settle_keeps_discs(other, mover, !b.black_moving);
    lemma_flips_in_o(p, o, s);
    let t = choose|t: int| f.contains(t);
    if !f.contains(t) {
        assert(f =~= Set::<int>::empty());
    }
    assert(o.contains(t));
    assert(0 <= t < 64);
    let pt = p.insert(t);
    lemma_count_subset(p, pt, 64);
    lemma_count_subset(pt, mover, 64);
    assert(!pt.contains(s));
    lemma_count_subset(other, o, 64);
}

/// A legal move puts one more disc on the board, and the board never holds
/// more than 64: from the opening's four, every position reached holds
/// between 4 and 64 discs.
pub proof fn lemma_move_adds_a_disc(b: Board, s: int)
    requires
        b.wf(),
        b.legal().contains(s),
    ensures
        count(after_move(b@, s).to_move.union(after_move(b@, s).waiting)) >= count(
            b.to_move@.union(b.waiting@),
        ) + 1,
        count(after_move(b@, s).to_move.union(after_move(b@, s).waiting)) <= 64,
{
    let p = b.to_move@;
    let o = b.waiting@;
    let a = after_move(b@, s);
    let f = flips(p, o, s);
    lemma_settle_keeps_discs(o.difference(f), p.union(f).insert(s), !b.black_moving);
    let before = p.union(o);
    let after = a.to_move.union(a.waiting);
    assert(after =~= o.difference(f).union(p.union(f).insert(s)));
    assert forall|i: int| 0 <= i < 64 && #[trigger] before.contains(i) implies after.contains(i) by {
        if o.contains(i) && f.contains(i) {
            assert(p.union(f).insert(s).contains(i));
        }
    }
    assert(after.contains(s) && !before.contains(s));
    lemma_count_subset(before, after, 64);
    lemma_count_bound(after, 64);
}

} // verus!
