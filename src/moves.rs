use vstd::prelude::*;
use crate::bitboard::BitBoard;

verus! {

/// Whether (`r`, `c`) lies on the 8x8 board.
pub open spec fn on_board(r: int, c: int) -> bool {
    0 <= r < 8 && 0 <= c < 8
}

/// The index of the square in row `r` and column `c`.
pub open spec fn sq(r: int, c: int) -> int {
    r * 8 + c
}

/// The row step of direction `d` (0..7).
pub open spec fn dir_row(d: int) -> int {
    if d < 3 {
        -1
    } else if d < 5 {
        0
    } else {
        1
    }
}

/// The column step of direction `d` (0..7).
pub open spec fn dir_col(d: int) -> int {
    if d == 0 || d == 3 || d == 5 {
        -1
    } else if d == 1 || d == 6 {
        0
    } else {
        1
    }
}

/// Walking from (`r`, `c`) by (`dr`, `dc`): the number of discs of `o` passed
/// before a disc of `p` closes the line, or -1 where the line is not closed
/// within `fuel` steps, leaves the board, or meets an empty square.
pub open spec fn bracket_run(p: Set<int>, o: Set<int>, r: int, c: int, dr: int, dc: int, fuel: nat) -> int
    decreases fuel,
{
    let r1 = r + dr;
    let c1 = c + dc;
    if fuel == 0 || !on_board(r1, c1) {
        -1
    } else if p.contains(sq(r1, c1)) {
        0
    } else if o.contains(sq(r1, c1)) {
        let t = bracket_run(p, o, r1, c1, dr, dc, (fuel - 1) as nat);
        if t >= 0 {
            t + 1
        } else {
            -1
        }
    } else {
        -1
    }
}

/// The first `n` squares met walking from (`r`, `c`) by (`dr`, `dc`).
pub open spec fn ray(r: int, c: int, dr: int, dc: int, n: nat) -> Set<int>
    decreases n,
{
    if n == 0 {
        Set::empty()
    } else {
        ray(r + dr, c + dc, dr, dc, (n - 1) as nat).insert(sq(r + dr, c + dc))
    }
}

/// The discs of `o` that a disc of `p` placed at (`r`, `c`) brackets in
/// direction `d`.
pub open spec fn flips_dir(p: Set<int>, o: Set<int>, r: int, c: int, d: int) -> Set<int> {
    let n = bracket_run(p, o, r, c, dir_row(d), dir_col(d), 7);
    if n >= 1 {
        ray(r, c, dir_row(d), dir_col(d), n as nat)
    } else {
        Set::empty()
    }
}

/// The discs bracketed in the first `d` directions.
pub open spec fn flips_upto(p: Set<int>, o: Set<int>, r: int, c: int, d: int) -> Set<int>
    decreases d,
{
    if d <= 0 {
        Set::empty()
    } else {
        flips_upto(p, o, r, c, d - 1).union(flips_dir(p, o, r, c, d - 1))
    }
}

/// The discs of `o` that turn over when `p` plays square `s`.
pub open spec fn flips(p: Set<int>, o: Set<int>, s: int) -> Set<int> {
    flips_upto(p, o, s / 8, s % 8, 8)
}

/// Square `s` is a legal move for `p` against `o`: it is empty and brackets
/// at least one disc of `o`.
pub open spec fn legal_at(p: Set<int>, o: Set<int>, s: int) -> bool {
    &&& 0 <= s < 64
    &&& !p.contains(s)
    &&& !o.contains(s)
    &&& flips(p, o, s) != Set::<int>::empty()
}

/// All legal moves of `p` against `o`.
pub open spec fn legal_set(p: Set<int>, o: Set<int>) -> Set<int> {
    Set::new(|s: int| legal_at(p, o, s))
}

proof fn lemma_ray_in_o(p: Set<int>, o: Set<int>, r: int, c: int, dr: int, dc: int, fuel: nat)
    requires
        bracket_run(p, o, r, c, dr, dc, fuel) >= 0,
    ensures
        forall|t: int|
            #[trigger] ray(r, c, dr, dc, bracket_run(p, o, r, c, dr, dc, fuel) as nat).contains(t)
                ==> o.contains(t),
    decreases fuel,
{
    let r1 = r + dr;
    let c1 = c + dc;
    let n = bracket_run(p, o, r, c, dr, dc, fuel);
    if p.contains(sq(r1, c1)) {
        assert(n == 0);
        assert(ray(r, c, dr, dc, 0) =~= Set::empty());
    } else {
        let f1 = (fuel - 1) as nat;
        lemma_ray_in_o(p, o, r1, c1, dr, dc, f1);
        let t = bracket_run(p, o, r1, c1, dr, dc, f1);
        assert(n == t + 1);
        assert(ray(r, c, dr, dc, n as nat) == ray(r1, c1, dr, dc, t as nat).insert(sq(r1, c1)));
    }
}

proof fn lemma_flips_upto_in_o(p: Set<int>, o: Set<int>, r: int, c: int, d: int)
    ensures
        forall|t: int| #[trigger] flips_upto(p, o, r, c, d).contains(t) ==> o.contains(t),
    decreases d,
{
    if d > 0 {
        lemma_flips_upto_in_o(p, o, r, c, d - 1);
        let n = bracket_run(p, o, r, c, dir_row(d - 1), dir_col(d - 1), 7);
        if n >= 1 {
            lemma_ray_in_o(p, o, r, c, dir_row(d - 1), dir_col(d - 1), 7);
        }
        assert forall|t: int| #[trigger] flips_upto(p, o, r, c, d).contains(t) implies o.contains(
            t,
        ) by {
            assert(flips_upto(p, o, r, c, d - 1).contains(t) || flips_dir(p, o, r, c, d - 1).contains(t));
        }
    }
}

/// Every disc that a move turns over belongs to the opponent.
pub proof fn lemma_flips_in_o(p: Set<int>, o: Set<int>, s: int)
    ensures
        forall|t: int| #[trigger] flips(p, o, s).contains(t) ==> o.contains(t),
{
    lemma_flips_upto_in_o(p, o, s / 8, s % 8, 8);
}

/// The step of direction `d`.
fn direction(d: usize) -> (r: (i32, i32))
    requires
        d < 8,
    ensures
        r.0 == dir_row(d as int),
        r.1 == dir_col(d as int),
{
    if d == 0 {
        (-1, -1)
    } else if d == 1 {
        (-1, 0)
    } else if d == 2 {
        (-1, 1)
    } else if d == 3 {
        (0, -1)
    } else if d == 4 {
        (0, 1)
    } else if d == 5 {
        (1, -1)
    } else if d == 6 {
        (1, 0)
    } else {
        (1, 1)
    }
}

/// Walks one line from (`r`, `c`): its bracket run and, where the line is
/// closed, the squares passed.
fn walk(p: &BitBoard, o: &BitBoard, r: i32, c: i32, dr: i32, dc: i32, fuel: u32) -> (res: (
    i32,
    BitBoard,
))
    requires
        on_board(r as int, c as int),
        -1 <= dr <= 1,
        -1 <= dc <= 1,
        fuel <= 8,
    ensures
        res.0 == bracket_run(p@, o@, r as int, c as int, dr as int, dc as int, fuel as nat),
        res.0 >= 0 ==> res.1@ == ray(r as int, c as int, dr as int, dc as int, res.0 as nat),
        res.0 <= fuel,
    decreases fuel,
{
    let r1 = r + dr;
    let c1 = c + dc;
    if fuel == 0 || r1 < 0 || r1 >= 8 || c1 < 0 || c1 >= 8 {
        return (-1, BitBoard::empty());
    }
    let s = (r1 * 8 + c1) as usize;
    if p.contains(s) {
        let e = BitBoard::empty();
        proof {
            assert(e@ =~= ray(r as int, c as int, dr as int, dc as int, 0));
        }
        (0, e)
    } else if o.contains(s) {
        let (t, m) = walk(p, o, r1, c1, dr, dc, fuel - 1);
        if t >= 0 {
            let m2 = m.union(&BitBoard::single(s));
            proof {
                assert(m2@ =~= ray(r as int, c as int, dr as int, dc as int, (t + 1) as nat));
            }
            (t + 1, m2)
        } else {
            (-1, m)
        }
    } else {
        (-1, BitBoard::empty())
    }
}

/// The discs of `o` that turn over when `p` plays square `s`.
pub fn flips_of(p: &BitBoard, o: &BitBoard, s: usize) -> (r: BitBoard)
    requires
        s < 64,
    ensures
        r@ == flips(p@, o@, s as int),
{
    let row = (s / 8) as i32;
    let col = (s % 8) as i32;
    let mut acc = BitBoard::empty();
    let mut d: usize = 0;
    proof {
        assert(acc@ =~= flips_upto(p@, o@, row as int, col as int, 0));
    }
    while d < 8
        invariant
            d <= 8,
            0 <= row < 8,
            0 <= col < 8,
            row == s / 8,
            col == s % 8,
            acc@ == flips_upto(p@, o@, row as int, col as int, d as int),
        decreases 8 - d,
    {
        let (dr, dc) = direction(d);
        let (n, m) = walk(p, o, row, col, dr, dc, 7);
        if n >= 1 {
            acc = acc.union(&m);
        } else {
            proof {
                assert(acc@.union(Set::empty()) =~= acc@);
            }
        }
        d = d + 1;
    }
    acc
}

/// Whether `p` may play square `s` against `o`.
pub fn is_legal(p: &BitBoard, o: &BitBoard, s: usize) -> (r: bool)
    ensures
        r == legal_at(p@, o@, s as int),
{
    if s >= 64 || p.contains(s) || o.contains(s) {
        false
    } else {
        !flips_of(p, o, s).is_empty()
    }
}

/// The legal moves of `p` against `o`.
pub fn legal_moves_of(p: &BitBoard, o: &BitBoard) -> (r: BitBoard)
    ensures
        r@ == legal_set(p@, o@),
{
    let mut acc = BitBoard::empty();
    let mut s: usize = 0;
    while s < 64
        invariant
            s <= 64,
            forall|t: int| #[trigger] acc@.contains(t) <==> (t < s && legal_at(p@, o@, t)),
        decreases 64 - s,
    {
        if is_legal(p, o, s) {
            acc = acc.union(&BitBoard::single(s));
        }
        s = s + 1;
    }
    proof {
        assert(acc@ =~= legal_set(p@, o@));
    }
    acc
}

} // verus!
