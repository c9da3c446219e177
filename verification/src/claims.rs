//! The resource-claim registry: coordinates reported by explorers but not
//! yet collected, kept in discovery order so that the primary/secondary
//! assignment policy is deterministic.

use vstd::prelude::*;

verus! {

/// `s` with `v` appended, unless `v` is already present: the effect of
/// reporting a discovery.
pub open spec fn reported(s: Seq<(usize, usize)>, v: (usize, usize)) -> Seq<(usize, usize)> {
    if s.contains(v) {
        s
    } else {
        s.push(v)
    }
}

/// The position of the first occurrence of `v` in `s`, or -1 if absent.
pub open spec fn find_index(s: Seq<(usize, usize)>, v: (usize, usize)) -> int
    decreases s.len(),
{
    if s.len() == 0 {
        -1
    } else if s[0] == v {
        0
    } else {
        let r = find_index(s.drop_first(), v);
        if r < 0 {
            -1
        } else {
            r + 1
        }
    }
}

/// `s` with the first occurrence of `v` removed; `s` itself if absent.
pub open spec fn remove_coord(s: Seq<(usize, usize)>, v: (usize, usize)) -> Seq<(usize, usize)> {
    if find_index(s, v) < 0 {
        s
    } else {
        s.remove(find_index(s, v))
    }
}

/// `find_index` returns the position of the first occurrence.
pub proof fn lemma_find_index_hit(s: Seq<(usize, usize)>, v: (usize, usize), i: int)
    requires
        0 <= i < s.len(),
        s[i] == v,
        forall|j: int| 0 <= j < i ==> s[j] != v,
    ensures
        find_index(s, v) == i,
    decreases s.len(),
{
    if i == 0 {
    } else {
        assert(s[0] != v);
        lemma_find_index_hit(s.drop_first(), v, i - 1);
    }
}

/// `find_index` returns -1 exactly when `v` does not occur.
pub proof fn lemma_find_index_miss(s: Seq<(usize, usize)>, v: (usize, usize))
    requires
        forall|j: int| 0 <= j < s.len() ==> s[j] != v,
    ensures
        find_index(s, v) == -1,
    decreases s.len(),
{
    if s.len() > 0 {
        assert(s[0] != v);
        assert(forall|j: int| 0 <= j < s.drop_first().len() ==> s.drop_first()[j] != v);
        lemma_find_index_miss(s.drop_first(), v);
    }
}

/// Where `find_index` lands: on the value when it occurs, on -1 with no
/// occurrence otherwise.
pub proof fn lemma_find_index_in_range(s: Seq<(usize, usize)>, v: (usize, usize))
    ensures
        find_index(s, v) >= 0 ==> 0 <= find_index(s, v) < s.len() && s[find_index(s, v)] == v,
        find_index(s, v) < 0 ==> forall|k: int| 0 <= k < s.len() ==> s[k] != v,
    decreases s.len(),
{
    if s.len() == 0 {
    } else if s[0] == v {
    } else {
        lemma_find_index_in_range(s.drop_first(), v);
        assert forall|k: int|
            find_index(s, v) < 0 && 0 <= k < s.len() implies s[k] != v by {
            if k > 0 {
                assert(s.drop_first()[k - 1] == s[k]);
            }
        }
    }
}

/// Positions before `find_index` do not hold the value.
pub proof fn lemma_find_index_first(s: Seq<(usize, usize)>, v: (usize, usize), k: int)
    requires
        0 <= k < find_index(s, v),
    ensures
        s[k] != v,
    decreases s.len(),
{
    lemma_find_index_in_range(s, v);
    if k == 0 {
        assert(s[0] != v);
    } else {
        assert(find_index(s.drop_first(), v) == find_index(s, v) - 1);
        lemma_find_index_first(s.drop_first(), v, k - 1);
        assert(s.drop_first()[k - 1] == s[k]);
    }
}

/// Discovered-but-uncollected resource coordinates, in discovery order.
pub struct ClaimRegistry {
    pub coords: Vec<(usize, usize)>,
}

impl View for ClaimRegistry {
    type V = Seq<(usize, usize)>;

    open spec fn view(&self) -> Seq<(usize, usize)> {
        self.coords@
    }
}

impl ClaimRegistry {
    /// No coordinate appears twice.
    pub open spec fn wf(self) -> bool {
        forall|i: int, j: int| 0 <= i < j < self@.len() ==> self@[i] != self@[j]
    }

    /// An empty registry.
    pub fn new() -> (c: ClaimRegistry)
        ensures
            c@ == Seq::<(usize, usize)>::empty(),
            c.wf(),
    {
        ClaimRegistry { coords: Vec::new() }
    }

    /// How many coordinates are outstanding.
    pub fn size(&self) -> (n: usize)
        ensures
            n == self@.len(),
    {
        self.coords.len()
    }

    /// Whether (x, y) is outstanding.
    pub fn contains(&self, x: usize, y: usize) -> (r: bool)
        ensures
            r == self@.contains((x, y)),
    {
        let n = self.coords.len();
        let mut i: usize = 0;
        while i < n
            invariant
                n == self@.len(),
                i <= n,
                forall|j: int| 0 <= j < i ==> self@[j] != (x, y),
            decreases n - i,
        {
            let (cx, cy) = self.coords[i];
            if cx == x && cy == y {
                assert(self@.contains((x, y)));
                return true;
            }
            i += 1;
        }
        assert(!self@.contains((x, y)));
        false
    }

    /// Records a discovery: appends (x, y) unless it is already
    /// outstanding, preserving discovery order. Idempotent.
    pub fn report(&mut self, x: usize, y: usize)
        requires
            old(self).wf(),
        ensures
            final(self).wf(),
            final(self)@ == reported(old(self)@, (x, y)),
            old(self)@.contains((x, y)) ==> final(self)@ == old(self)@,
            !old(self)@.contains((x, y)) ==> final(self)@ == old(self)@.push((x, y)),
    {
        if !self.contains(x, y) {
            self.coords.push((x, y));
            assert forall|i: int, j: int| 0 <= i < j < self@.len() implies self@[i] != self@[j] by {
                assert(j < self@.len() - 1 ==> self@[i] != self@[j]);
                assert(j == self@.len() - 1 ==> self@[j] == (x, y));
            }
        }
    }

    /// The n-th outstanding coordinate in discovery order, if any.
    pub fn nth_unclaimed(&self, n: usize) -> (r: Option<(usize, usize)>)
        ensures
            n < self@.len() ==> r == Some(self@[n as int]),
            n >= self@.len() ==> r is None,
    {
        if n < self.coords.len() {
            Some(self.coords[n])
        } else {
            None
        }
    }

    /// Removes (x, y) if outstanding, keeping the order of the rest;
    /// a no-op if it is absent. Idempotent.
    pub fn release(&mut self, x: usize, y: usize)
        requires
            old(self).wf(),
        ensures
            final(self).wf(),
            final(self)@ == remove_coord(old(self)@, (x, y)),
            !old(self)@.contains((x, y)) ==> final(self)@ == old(self)@,
            !final(self)@.contains((x, y)),
    {
        let ghost prev = self@;
        proof {
            assert(forall|a: int, b: int| 0 <= a < b < prev.len() ==> prev[a] != prev[b]);
        }
        let n = self.coords.len();
        let mut i: usize = 0;
        while i < n
            invariant
                self@ == prev,
                n == self@.len(),
                i <= n,
                old(self).wf(),
                prev == old(self)@,
                forall|j: int| 0 <= j < i ==> self@[j] != (x, y),
            decreases n - i,
        {
            let (cx, cy) = self.coords[i];
            if cx == x && cy == y {
                self.coords.remove(i);
                proof {
                    assert(forall|a: int, b: int| 0 <= a < b < prev.len() ==> prev[a] != prev[b]);
                }
                proof {
                    lemma_find_index_hit(prev, (x, y), i as int);
                    assert(self@ == prev.remove(i as int));
                    prev.remove_ensures(i as int);
                    assert forall|p: int, q: int|
                        0 <= p < q < self@.len() implies self@[p] != self@[q] by {
                        if q < i {
                            assert(self@[p] == prev[p] && self@[q] == prev[q]);
                            assert(prev[p] != prev[q]);
                        } else if p < i {
                            assert(self@[p] == prev[p] && self@[q] == prev[q + 1]);
                            assert(prev[p] != prev[q + 1]);
                        } else {
                            assert(self@[p] == prev[p + 1] && self@[q] == prev[q + 1]);
                            assert(prev[p + 1] != prev[q + 1]);
                        }
                    }
                    assert forall|p: int| 0 <= p < self@.len() implies self@[p] != (x, y) by {
                        if p >= i {
                            assert(self@[p] == prev[p + 1]);
                            assert(prev[i as int] != prev[p + 1]);
                        } else {
                            assert(self@[p] == prev[p]);
                        }
                    }
                    assert(!self@.contains((x, y)));
                }
                return ;
            }
            i += 1;
        }
        proof {
            lemma_find_index_miss(prev, (x, y));
            assert(!prev.contains((x, y)));
        }
    }
}

/// With at least two outstanding claims, the primary pick (the earliest)
/// and the secondary pick (the next) are never the same coordinate.
pub proof fn lemma_primary_secondary_distinct(c: ClaimRegistry)
    requires
        c.wf(),
        c@.len() >= 2,
    ensures
        c@[0] != c@[1],
{
}

} // verus!
