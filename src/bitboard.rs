use vstd::prelude::*;

verus! {

/// Whether square `i` is set in the word `bits`.
pub open spec fn bit_of(bits: u64, i: int) -> bool {
    0 <= i < 64 && (bits >> (i as u64)) & 1 == 1
}

/// The squares of the board, 0..63 in row-major order.
pub open spec fn all_squares() -> Set<int> {
    Set::new(|i: int| 0 <= i < 64)
}

/// The number of squares below `n` that belong to `s`.
pub open spec fn count_below(s: Set<int>, n: int) -> nat
    decreases n,
{
    if n <= 0 {
        0
    } else {
        count_below(s, n - 1) + if s.contains(n - 1) {
            1nat
        } else {
            0nat
        }
    }
}

/// The number of board squares in `s`.
pub open spec fn count(s: Set<int>) -> nat {
    count_below(s, 64)
}

/// A set of squares of the 8x8 board, one bit per square.
#[derive(Clone, Copy, Debug, PartialEq, Eq, Structural)]
pub struct BitBoard {
    pub bits: u64,
}

impl View for BitBoard {
    type V = Set<int>;

    open spec fn view(&self) -> Set<int> {
        Set::new(|i: int| bit_of(self.bits, i))
    }
}

proof fn lemma_bit_or(a: u64, b: u64, i: u64)
    requires
        i < 64,
    ensures
        ((a | b) >> i) & 1 == 1 <==> ((a >> i) & 1 == 1 || (b >> i) & 1 == 1),
{
    assert(((a | b) >> i) & 1 == 1 <==> ((a >> i) & 1 == 1 || (b >> i) & 1 == 1))
        by (bit_vector)
        requires
            i < 64,
    ;
}

proof fn lemma_bit_and(a: u64, b: u64, i: u64)
    requires
        i < 64,
    ensures
        ((a & b) >> i) & 1 == 1 <==> ((a >> i) & 1 == 1 && (b >> i) & 1 == 1),
{
    assert(((a & b) >> i) & 1 == 1 <==> ((a >> i) & 1 == 1 && (b >> i) & 1 == 1))
        by (bit_vector)
        requires
            i < 64,
    ;
}

proof fn lemma_bit_not(a: u64, i: u64)
    requires
        i < 64,
    ensures
        ((!a) >> i) & 1 == 1 <==> !((a >> i) & 1 == 1),
{
    assert(((!a) >> i) & 1 == 1 <==> !((a >> i) & 1 == 1)) by (bit_vector)
        requires
            i < 64,
    ;
}

proof fn lemma_bit_single(j: u64, i: u64)
    requires
        i < 64,
        j < 64,
    ensures
        ((1u64 << j) >> i) & 1 == 1 <==> i == j,
{
    assert(((1u64 << j) >> i) & 1 == 1 <==> i == j) by (bit_vector)
        requires
            i < 64,
            j < 64,
    ;
}

proof fn lemma_bit_zero(i: u64)
    requires
        i < 64,
    ensures
        !((0u64 >> i) & 1 == 1),
{
    assert(!((0u64 >> i) & 1 == 1)) by (bit_vector);
}

/// Adding a square below `n` that was missing adds one to the count.
pub proof fn lemma_count_insert(a: Set<int>, x: int, n: int)
    ensures
        count_below(a.insert(x), n) == count_below(a, n) + if 0 <= x < n && !a.contains(x) {
            1int
        } else {
            0int
        },
    decreases n,
{
    if n > 0 {
        lemma_count_insert(a, x, n - 1);
    }
}

/// The empty set counts zero.
pub proof fn lemma_count_empty(n: int)
    ensures
        count_below(Set::<int>::empty(), n) == 0,
    decreases n,
{
    if n > 0 {
        lemma_count_empty(n - 1);
    }
}

/// Counting is monotone, and a square of `b` missing from `a` adds one.
pub proof fn lemma_count_subset(a: Set<int>, b: Set<int>, n: int)
    requires
        forall|i: int| 0 <= i < n && #[trigger] a.contains(i) ==> b.contains(i),
    ensures
        count_below(a, n) <= count_below(b, n),
        forall|x: int|
            0 <= x < n && b.contains(x) && !a.contains(x) ==> count_below(a, n) + 1 <= count_below(
                b,
                n,
            ),
    decreases n,
{
    if n > 0 {
        lemma_count_subset(a, b, n - 1);
    }
}

/// The counts of three sets that split the squares below `n` add up to `n`.
pub proof fn lemma_count_partition(a: Set<int>, b: Set<int>, c: Set<int>, n: int)
    requires
        0 <= n,
        forall|i: int|
            0 <= i < n ==> (#[trigger] a.contains(i) as int) + (b.contains(i) as int) + (
            c.contains(i) as int) == 1,
    ensures
        count_below(a, n) + count_below(b, n) + count_below(c, n) == n,
    decreases n,
{
    if n > 0 {
        lemma_count_partition(a, b, c, n - 1);
        assert((a.contains(n - 1) as int) + (b.contains(n - 1) as int) + (c.contains(n - 1) as int)
            == 1);
    }
}

/// A set counts zero below `n` exactly when it holds no square below `n`.
pub proof fn lemma_count_zero(a: Set<int>, n: int)
    ensures
        count_below(a, n) == 0 <==> forall|i: int| 0 <= i < n ==> !a.contains(i),
    decreases n,
{
    if n > 0 {
        lemma_count_zero(a, n - 1);
    }
}

/// No set holds more than `n` squares below `n`.
pub proof fn lemma_count_bound(a: Set<int>, n: int)
    requires
        0 <= n,
    ensures
        count_below(a, n) <= n,
    decreases n,
{
    if n > 0 {
        lemma_count_bound(a, n - 1);
    }
}

impl BitBoard {
    /// The empty set.
    pub fn empty() -> (r: BitBoard)
        ensures
            r@ == Set::<int>::empty(),
    {
        let r = BitBoard { bits: 0 };
        proof {
            assert forall|i: int| !r@.contains(i) by {
                if 0 <= i < 64 {
                    lemma_bit_zero(i as u64);
                }
            }
            assert(r@ =~= Set::<int>::empty());
        }
        r
    }

    /// The set holding square `i` alone.
    pub fn single(i: usize) -> (r: BitBoard)
        requires
            i < 64,
        ensures
            r@ == Set::<int>::empty().insert(i as int),
    {
        let r = BitBoard { bits: 1u64 << (i as u64) };
        proof {
            assert forall|j: int| r@.contains(j) <==> j == i as int by {
                if 0 <= j < 64 {
                    lemma_bit_single(i as u64, j as u64);
                }
            }
            assert(r@ =~= Set::<int>::empty().insert(i as int));
        }
        r
    }

    /// Whether square `i` is in the set; false for any `i` off the board.
    pub fn contains(&self, i: usize) -> (r: bool)
        ensures
            r == self@.contains(i as int),
    {
        if i < 64 {
            (self.bits >> (i as u64)) & 1 == 1
        } else {
            false
        }
    }

    /// Whether the set is empty.
    pub fn is_empty(&self) -> (r: bool)
        ensures
            r == (self@ == Set::<int>::empty()),
    {
        let r = self.count() == 0;
        proof {
            lemma_count_zero(self@, 64);
            if r {
                assert(self@ =~= Set::<int>::empty());
            } else {
                let i = choose|i: int| 0 <= i < 64 && self@.contains(i);
                assert(self@.contains(i));
            }
        }
        r
    }

    /// The squares in either set.
    pub fn union(&self, o: &BitBoard) -> (r: BitBoard)
        ensures
            r@ == self@.union(o@),
    {
        let r = BitBoard { bits: self.bits | o.bits };
        proof {
            assert forall|i: int| r@.contains(i) <==> self@.union(o@).contains(i) by {
                if 0 <= i < 64 {
                    lemma_bit_or(self.bits, o.bits, i as u64);
                }
            }
            assert(r@ =~= self@.union(o@));
        }
        r
    }

    /// The squares in both sets.
    pub fn intersection(&self, o: &BitBoard) -> (r: BitBoard)
        ensures
            r@ == self@.intersect(o@),
    {
        let r = BitBoard { bits: self.bits & o.bits };
        proof {
            assert forall|i: int| r@.contains(i) <==> self@.intersect(o@).contains(i) by {
                if 0 <= i < 64 {
                    lemma_bit_and(self.bits, o.bits, i as u64);
                }
            }
            assert(r@ =~= self@.intersect(o@));
        }
        r
    }

    /// The squares of this set that are not in `o`.
    pub fn difference(&self, o: &BitBoard) -> (r: BitBoard)
        ensures
            r@ == self@.difference(o@),
    {
        let r = BitBoard { bits: self.bits & !o.bits };
        proof {
            assert forall|i: int| r@.contains(i) <==> self@.difference(o@).contains(i) by {
                if 0 <= i < 64 {
                    lemma_bit_and(self.bits, !o.bits, i as u64);
                    lemma_bit_not(o.bits, i as u64);
                }
            }
            assert(r@ =~= self@.difference(o@));
        }
        r
    }

    /// The board squares that are not in the set.
    pub fn complement(&self) -> (r: BitBoard)
        ensures
            r@ == all_squares().difference(self@),
    {
        let r = BitBoard { bits: !self.bits };
        proof {
            assert forall|i: int| r@.contains(i) <==> all_squares().difference(self@).contains(i) by {
                if 0 <= i < 64 {
                    lemma_bit_not(self.bits, i as u64);
                }
            }
            assert(r@ =~= all_squares().difference(self@));
        }
        r
    }

    /// The number of squares in the set.
    pub fn count(&self) -> (r: u32)
        ensures
            r as nat == count(self@),
            r <= 64,
    {
        let mut c: u32 = 0;
        let mut i: usize = 0;
        while i < 64
            invariant
                i <= 64,
                c as nat == count_below(self@, i as int),
                c <= i,
            decreases 64 - i,
        {
            if self.contains(i) {
                c = c + 1;
            }
            i = i + 1;
        }
        c
    }

    /// The squares of the set in ascending order.
    pub fn squares(&self) -> (r: Vec<usize>)
        ensures
            forall|k: int| 0 <= k < r@.len() ==> self@.contains(#[trigger] r@[k] as int),
            forall|i: int| #[trigger] self@.contains(i) ==> exists|k: int| 0 <= k < r@.len() && r@[k] == i,
            forall|k: int, l: int| 0 <= k < l < r@.len() ==> r@[k] < r@[l],
    {
        let mut r: Vec<usize> = Vec::new();
        let mut i: usize = 0;
        while i < 64
            invariant
                i <= 64,
                forall|k: int| 0 <= k < r@.len() ==> self@.contains(#[trigger] r@[k] as int),
                forall|k: int| 0 <= k < r@.len() ==> #[trigger] r@[k] < i,
                forall|j: int| 0 <= j < i && #[trigger] self@.contains(j) ==> exists|k: int|
                    0 <= k < r@.len() && r@[k] == j,
                forall|k: int, l: int| 0 <= k < l < r@.len() ==> r@[k] < r@[l],
            decreases 64 - i,
        {
            if self.contains(i) {
                let ghost before = r@;
                r.push(i);
                proof {
                    assert(r@[r@.len() - 1] == i);
                    assert forall|j: int| 0 <= j < i && #[trigger] self@.contains(j) implies exists|k: int|
                        0 <= k < r@.len() && r@[k] == j by {
                        let k = choose|k: int| 0 <= k < before.len() && before[k] == j;
                        assert(r@[k] == j);
                    }
                }
            }
            i = i + 1;
        }
        r
    }
}

} // verus!
