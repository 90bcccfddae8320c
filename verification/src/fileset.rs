//! Sets of file stems, the diff baseline of the folder watcher.
//!
//! A `FileSet` holds each stem once; the element order is the order in which
//! the names arrived, which keeps the classifier deterministic.

use vstd::prelude::*;
use crate::text::views_of;

verus! {

/// The elements of `a`, in order, that do not occur in `bs`.
pub open spec fn seq_minus(a: Seq<Seq<char>>, bs: Seq<Seq<char>>) -> Seq<Seq<char>>
    decreases a.len(),
{
    if a.len() == 0 {
        Seq::empty()
    } else {
        let rest = seq_minus(a.drop_last(), bs);
        if bs.contains(a.last()) {
            rest
        } else {
            rest.push(a.last())
        }
    }
}

/// The sequence with later repetitions dropped: each element keeps its
/// first position.
pub open spec fn dedup_first(s: Seq<Seq<char>>) -> Seq<Seq<char>>
    decreases s.len(),
{
    if s.len() == 0 {
        Seq::empty()
    } else {
        let rest = dedup_first(s.drop_last());
        if rest.contains(s.last()) {
            rest
        } else {
            rest.push(s.last())
        }
    }
}

/// A set of file stems: the last-observed contents of a watched directory.
pub struct FileSet {
    pub names: Vec<String>,
}

impl FileSet {
    /// The stems in arrival order.
    pub open spec fn seq_view(self) -> Seq<Seq<char>> {
        views_of(self.names@)
    }

    /// A stem is in the set.
    pub open spec fn has(self, n: Seq<char>) -> bool {
        self.seq_view().contains(n)
    }

    /// Each stem occurs once.
    pub open spec fn wf(self) -> bool {
        forall|i: int, j: int|
            0 <= i < j < self.seq_view().len() ==> self.seq_view()[i] != self.seq_view()[j]
    }

    /// The empty set.
    pub fn new() -> (r: FileSet)
        ensures
            r.wf(),
            r.seq_view() == Seq::<Seq<char>>::empty(),
    {
        let r = FileSet { names: Vec::new() };
        proof {
            assert(r.seq_view() =~= Seq::<Seq<char>>::empty());
        }
        r
    }

    /// Membership test.
    pub fn contains_name(&self, name: &String) -> (r: bool)
        ensures
            r == self.has(name@),
    {
        let n = self.names.len();
        let mut i: usize = 0;
        while i < n
            invariant
                n == self.names@.len(),
                i <= n,
                forall|j: int| 0 <= j < i ==> self.seq_view()[j] != name@,
            decreases n - i,
        {
            if self.names[i].eq(name) {
                proof {
                    assert(self.seq_view()[i as int] == name@);
                }
                return true;
            }
            i = i + 1;
        }
        proof {
            if self.has(name@) {
                let k = choose|k: int| 0 <= k < self.seq_view().len() && self.seq_view()[k]
                    == name@;
                assert(self.seq_view()[k] != name@);
            }
        }
        false
    }

    /// Builds a set from raw names, keeping the first occurrence of each in
    /// its place.
    pub fn from_names(names: &Vec<String>) -> (r: FileSet)
        ensures
            r.wf(),
            r.seq_view() == dedup_first(views_of(names@)),
            forall|n: Seq<char>| r.has(n) <==> views_of(names@).contains(n),
    {
        let mut r = FileSet { names: Vec::new() };
        proof {
            assert(r.seq_view() =~= Seq::<Seq<char>>::empty());
        }
        let n = names.len();
        let mut i: usize = 0;
        while i < n
            invariant
                n == names@.len(),
                i <= n,
                r.wf(),
                r.seq_view() == dedup_first(views_of(names@.subrange(0, i as int))),
                forall|m: Seq<char>| r.has(m) <==> views_of(names@.subrange(0, i as int)).contains(
                    m,
                ),
            decreases n - i,
        {
            let ghost prev = r;
            let ghost x = names@[i as int]@;
            if !r.contains_name(&names[i]) {
                let stem = names[i].clone();
                r.names.push(stem);
                proof {
                    assert(r.seq_view() =~= prev.seq_view().push(x));
                    assert forall|a: int, b: int|
                        0 <= a < b < r.seq_view().len() implies r.seq_view()[a]
                        != r.seq_view()[b] by {
                        if b < prev.seq_view().len() {
                            assert(prev.seq_view()[a] != prev.seq_view()[b]);
                        } else {
                            assert(r.seq_view()[b] == x);
                            assert(r.seq_view()[a] == prev.seq_view()[a]);
                            if prev.seq_view()[a] == x {
                                assert(prev.has(x));
                            }
                        }
                    }
                }
            }
            proof {
                let sub1 = views_of(names@.subrange(0, i as int + 1));
                let sub0 = views_of(names@.subrange(0, i as int));
                assert(sub1 =~= sub0.push(x));
                assert(sub1.drop_last() =~= sub0);
                assert(sub1.last() == x);
                assert(r.seq_view() == dedup_first(sub1));
                assert forall|m: Seq<char>| r.has(m) implies sub1.contains(m) by {
                    let k = choose|k: int|
                        0 <= k < r.seq_view().len() && r.seq_view()[k] == m;
                    if k < prev.seq_view().len() {
                        assert(prev.seq_view()[k] == m);
                        assert(prev.has(m));
                        let q = choose|q: int| 0 <= q < sub0.len() && sub0[q] == m;
                        assert(sub1[q] == m);
                    } else {
                        assert(m == x);
                        assert(sub1[sub1.len() - 1] == m);
                    }
                }
                assert forall|m: Seq<char>| sub1.contains(m) implies r.has(m) by {
                    let k = choose|k: int| 0 <= k < sub1.len() && sub1[k] == m;
                    if k < sub0.len() {
                        assert(sub0[k] == m);
                        assert(sub0.contains(m));
                        assert(prev.has(m));
                        let q = choose|q: int|
                            0 <= q < prev.seq_view().len() && prev.seq_view()[q] == m;
                        assert(r.seq_view()[q] == m);
                    } else {
                        assert(m == x);
                        if prev.has(m) {
                            let q = choose|q: int|
                                0 <= q < prev.seq_view().len() && prev.seq_view()[q] == m;
                            assert(r.seq_view()[q] == m);
                        } else {
                            assert(r.seq_view()[r.seq_view().len() - 1] == m);
                        }
                    }
                }
            }
            i = i + 1;
        }
        proof {
            assert(names@.subrange(0, n as int) =~= names@);
        }
        r
    }

    /// The stems of this set that the other set lacks, in this set's order.
    pub fn diff(&self, other: &FileSet) -> (r: Vec<String>)
        ensures
            views_of(r@) == seq_minus(self.seq_view(), other.seq_view()),
    {
        let mut r: Vec<String> = Vec::new();
        proof {
            assert(views_of(r@) =~= Seq::<Seq<char>>::empty());
            assert(self.seq_view().subrange(0, 0) =~= Seq::<Seq<char>>::empty());
        }
        let n = self.names.len();
        let mut i: usize = 0;
        while i < n
            invariant
                n == self.names@.len(),
                i <= n,
                views_of(r@) == seq_minus(self.seq_view().subrange(0, i as int), other.seq_view()),
            decreases n - i,
        {
            let ghost prefix = self.seq_view().subrange(0, i as int);
            if !other.contains_name(&self.names[i]) {
                let ghost old_r = r@;
                let name = self.names[i].clone();
                r.push(name);
                proof {
                    assert(views_of(r@) =~= views_of(old_r).push(self.seq_view()[i as int]));
                }
            }
            proof {
                let prefix1 = self.seq_view().subrange(0, i as int + 1);
                assert(prefix1.drop_last() =~= prefix);
                assert(prefix1.last() == self.seq_view()[i as int]);
            }
            i = i + 1;
        }
        proof {
            assert(self.seq_view().subrange(0, n as int) =~= self.seq_view());
        }
        r
    }
}

} // verus!
