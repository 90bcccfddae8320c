//! The iteration store: for each task-PRD entry, the runs recorded against
//! it.
//!
//! The store groups iterations by PRD name in a vector of groups with
//! distinct names, standing in for a map keyed by name.  Reading and writing
//! the JSON file, and stamping times, belong to the caller.

use vstd::prelude::*;
use crate::search::first_where;
use crate::search::lemma_first_where_found;
use crate::search::lemma_first_where_none;

verus! {

/// One recorded run against a task-PRD entry.
#[derive(Debug)]
pub struct RalphIteration {
    pub iteration_number: u32,
    pub session_id: String,
    /// One of `running`, `completed`, `stopped`.
    pub status: String,
    pub created_at: String,
}

impl RalphIteration {
    /// A field-for-field copy.
    pub fn duplicate(&self) -> (r: RalphIteration)
        ensures
            r == *self,
    {
        RalphIteration {
            iteration_number: self.iteration_number,
            session_id: self.session_id.clone(),
            status: self.status.clone(),
            created_at: self.created_at.clone(),
        }
    }
}

/// The iterations recorded for one PRD name.
#[derive(Debug)]
pub struct PrdIterations {
    pub prd_name: String,
    pub iterations: Vec<RalphIteration>,
}

/// A group carries the given PRD name.
pub open spec fn group_matches(g: PrdIterations, name: Seq<char>) -> bool {
    g.prd_name@ == name
}

/// The index of the group for the given PRD name.
pub open spec fn group_slot(gs: Seq<PrdIterations>, name: Seq<char>) -> Option<int> {
    first_where(gs, |g: PrdIterations| group_matches(g, name))
}

/// The index of the first iteration with the given number.
pub open spec fn iter_slot(its: Seq<RalphIteration>, n: u32) -> Option<int> {
    first_where(its, |it: RalphIteration| it.iteration_number == n)
}

/// The on-disk store of iterations for one folder.
#[derive(Debug)]
pub struct RalphIterationsStore {
    pub version: u32,
    pub iterations: Vec<PrdIterations>,
}

impl Default for RalphIterationsStore {
    /// The store an absent or unreadable file stands for.
    fn default() -> (r: Self)
        ensures
            r.version == 0,
            r.iterations@.len() == 0,
    {
        RalphIterationsStore { version: 0, iterations: Vec::new() }
    }
}

impl RalphIterationsStore {
    /// The iterations recorded for one PRD name, copied out; empty when the
    /// name has no group.
    pub fn iterations_for(&self, prd_name: &String) -> (r: Vec<RalphIteration>)
        ensures
            match group_slot(self.iterations@, prd_name@) {
                Some(i) => r@ == self.iterations@[i].iterations@,
                None => r@.len() == 0,
            },
    {
        let ghost pred = |g: PrdIterations| group_matches(g, prd_name@);
        let n = self.iterations.len();
        let mut i: usize = 0;
        #[verifier::loop_isolation(false)]
        while i < n
            invariant
                n == self.iterations@.len(),
                i <= n,
                forall|j: int| 0 <= j < i ==> !pred(self.iterations@[j]),
            decreases n - i,
        {
            if self.iterations[i].prd_name.eq(prd_name) {
                proof {
                    lemma_first_where_found(self.iterations@, pred, i as int);
                }
                let src = &self.iterations[i].iterations;
                let m = src.len();
                let mut r: Vec<RalphIteration> = Vec::new();
                let mut k: usize = 0;
                #[verifier::loop_isolation(false)]
                while k < m
                    invariant
                        m == src@.len(),
                        k <= m,
                        r@ == src@.subrange(0, k as int),
                    decreases m - k,
                {
                    r.push(src[k].duplicate());
                    proof {
                        assert(src@.subrange(0, k as int + 1) =~= src@.subrange(0, k as int).push(
                            src@[k as int],
                        ));
                    }
                    k = k + 1;
                }
                proof {
                    assert(src@.subrange(0, m as int) =~= src@);
                }
                return r;
            }
            proof {
                assert(!pred(self.iterations@[i as int]));
            }
            i = i + 1;
        }
        proof {
            lemma_first_where_none(self.iterations@, pred);
        }
        Vec::new()
    }

    /// Records one more iteration under the PRD name, creating the group on
    /// first use.  A store that never carried a version gets version 1.
    pub fn add_iteration(&mut self, prd_name: &String, iteration: RalphIteration)
        ensures
            final(self).version == (if old(self).version == 0 {
                1u32
            } else {
                old(self).version
            }),
            match group_slot(old(self).iterations@, prd_name@) {
                Some(i) => {
                    &&& final(self).iterations@.len() == old(self).iterations@.len()
                    &&& forall|k: int|
                        0 <= k < old(self).iterations@.len() && k != i ==> final(self).iterations@[k] == old(self).iterations@[k]
                    &&& final(self).iterations@[i].prd_name == old(self).iterations@[i].prd_name
                    &&& final(self).iterations@[i].iterations@ == old(self).iterations@[i].iterations@.push(iteration)
                },
                None => {
                    &&& final(self).iterations@.len() == old(self).iterations@.len() + 1
                    &&& forall|k: int|
                        0 <= k < old(self).iterations@.len() ==> final(self).iterations@[k] == old(self).iterations@[k]
                    &&& final(self).iterations@.last().prd_name == *prd_name
                    &&& final(self).iterations@.last().iterations@ == seq![iteration]
                },
            },
    {
        let ghost pre = self.iterations@;
        let ghost pred = |g: PrdIterations| group_matches(g, prd_name@);
        if self.version == 0 {
            self.version = 1;
        }
        let ghost bumped = self.version;
        let n = self.iterations.len();
        let mut i: usize = 0;
        #[verifier::loop_isolation(false)]
        while i < n
            invariant
                self.version == bumped,
                self.iterations@ == pre,
                n == self.iterations@.len(),
                i <= n,
                forall|j: int| 0 <= j < i ==> !pred(self.iterations@[j]),
            decreases n - i,
        {
            if self.iterations[i].prd_name.eq(prd_name) {
                proof {
                    lemma_first_where_found(pre, pred, i as int);
                }
                let mut g = self.iterations.remove(i);
                g.iterations.push(iteration);
                let ghost g_now = g;
                self.iterations.insert(i, g);
                proof {
                    assert(self.iterations@ =~= pre.update(i as int, g_now));
                }
                return ;
            }
            proof {
                assert(!pred(self.iterations@[i as int]));
            }
            i = i + 1;
        }
        proof {
            lemma_first_where_none(pre, pred);
        }
        let mut fresh: Vec<RalphIteration> = Vec::new();
        fresh.push(iteration);
        proof {
            assert(fresh@ =~= seq![iteration]);
        }
        self.iterations.push(PrdIterations { prd_name: prd_name.clone(), iterations: fresh });
    }

    /// Sets the status of the first iteration with the given number under
    /// the PRD name; a missing group or number changes nothing.
    pub fn update_status(&mut self, prd_name: &String, iteration_number: u32, status: String)
        ensures
            final(self).version == old(self).version,
            match group_slot(old(self).iterations@, prd_name@) {
                Some(i) => {
                    &&& final(self).iterations@.len() == old(self).iterations@.len()
                    &&& forall|k: int|
                        0 <= k < old(self).iterations@.len() && k != i ==> final(self).iterations@[k] == old(self).iterations@[k]
                    &&& final(self).iterations@[i].prd_name == old(self).iterations@[i].prd_name
                    &&& match iter_slot(old(self).iterations@[i].iterations@, iteration_number) {
                        Some(j) => final(self).iterations@[i].iterations@ == old(self).iterations@[i].iterations@.update(
                            j,
                            RalphIteration {
                                iteration_number: old(self).iterations@[i].iterations@[j].iteration_number,
                                session_id: old(self).iterations@[i].iterations@[j].session_id,
                                status: status,
                                created_at: old(self).iterations@[i].iterations@[j].created_at,
                            },
                        ),
                        None => final(self).iterations@[i].iterations@ == old(self).iterations@[i].iterations@,
                    }
                },
                None => final(self).iterations@ == old(self).iterations@,
            },
    {
        let ghost pre = self.iterations@;
        let ghost pred = |g: PrdIterations| group_matches(g, prd_name@);
        let ghost pre_version = self.version;
        let n = self.iterations.len();
        let mut i: usize = 0;
        #[verifier::loop_isolation(false)]
        while i < n
            invariant
                self.version == pre_version,
                self.iterations@ == pre,
                n == self.iterations@.len(),
                i <= n,
                forall|j: int| 0 <= j < i ==> !pred(self.iterations@[j]),
            decreases n - i,
        {
            if self.iterations[i].prd_name.eq(prd_name) {
                proof {
                    lemma_first_where_found(pre, pred, i as int);
                }
                let mut g = self.iterations.remove(i);
                let ghost pre_its = g.iterations@;
                let ghost ipred = |it: RalphIteration| it.iteration_number == iteration_number;
                let m = g.iterations.len();
                let mut k: usize = 0;
                #[verifier::loop_isolation(false)]
                while k < m
                    invariant
                        self.version == pre_version,
                        self.iterations@ == pre.remove(i as int),
                        i < n,
                        n == pre.len(),
                        g == pre[i as int],
                        g.iterations@ == pre_its,
                        g.prd_name == pre[i as int].prd_name,
                        m == g.iterations@.len(),
                        k <= m,
                        forall|j: int| 0 <= j < k ==> !ipred(g.iterations@[j]),
                    decreases m - k,
                {
                    if g.iterations[k].iteration_number == iteration_number {
                        proof {
                            lemma_first_where_found(pre_its, ipred, k as int);
                        }
                        let mut it = g.iterations.remove(k);
                        it.status = status;
                        let ghost it_now = it;
                        g.iterations.insert(k, it);
                        proof {
                            assert(g.iterations@ =~= pre_its.update(k as int, it_now));
                        }
                        let ghost g_now = g;
                        self.iterations.insert(i, g);
                        proof {
                            assert(self.iterations@ =~= pre.update(i as int, g_now));
                        }
                        return ;
                    }
                    proof {
                        assert(!ipred(g.iterations@[k as int]));
                    }
                    k = k + 1;
                }
                proof {
                    lemma_first_where_none(pre_its, ipred);
                }
                let ghost g_now = g;
                self.iterations.insert(i, g);
                proof {
                    assert(self.iterations@ =~= pre.update(i as int, g_now));
                    assert(self.iterations@ =~= pre);
                }
                return ;
            }
            proof {
                assert(!pred(self.iterations@[i as int]));
            }
            i = i + 1;
        }
        proof {
            lemma_first_where_none(pre, pred);
        }
    }

    /// Sets the session of the first iteration with the given number under
    /// the PRD name; a missing group or number changes nothing.
    pub fn update_session_id(&mut self, prd_name: &String, iteration_number: u32, session_id: String)
        ensures
            final(self).version == old(self).version,
            match group_slot(old(self).iterations@, prd_name@) {
                Some(i) => {
                    &&& final(self).iterations@.len() == old(self).iterations@.len()
                    &&& forall|k: int|
                        0 <= k < old(self).iterations@.len() && k != i ==> final(self).iterations@[k] == old(self).iterations@[k]
                    &&& final(self).iterations@[i].prd_name == old(self).iterations@[i].prd_name
                    &&& match iter_slot(old(self).iterations@[i].iterations@, iteration_number) {
                        Some(j) => final(self).iterations@[i].iterations@ == old(self).iterations@[i].iterations@.update(
                            j,
                            RalphIteration {
                                iteration_number: old(self).iterations@[i].iterations@[j].iteration_number,
                                session_id: session_id,
                                status: old(self).iterations@[i].iterations@[j].status,
                                created_at: old(self).iterations@[i].iterations@[j].created_at,
                            },
                        ),
                        None => final(self).iterations@[i].iterations@ == old(self).iterations@[i].iterations@,
                    }
                },
                None => final(self).iterations@ == old(self).iterations@,
            },
    {
        let ghost pre = self.iterations@;
        let ghost pred = |g: PrdIterations| group_matches(g, prd_name@);
        let ghost pre_version = self.version;
        let n = self.iterations.len();
        let mut i: usize = 0;
        #[verifier::loop_isolation(false)]
        while i < n
            invariant
                self.version == pre_version,
                self.iterations@ == pre,
                n == self.iterations@.len(),
                i <= n,
                forall|j: int| 0 <= j < i ==> !pred(self.iterations@[j]),
            decreases n - i,
        {
            if self.iterations[i].prd_name.eq(prd_name) {
                proof {
                    lemma_first_where_found(pre, pred, i as int);
                }
                let mut g = self.iterations.remove(i);
                let ghost pre_its = g.iterations@;
                let ghost ipred = |it: RalphIteration| it.iteration_number == iteration_number;
                let m = g.iterations.len();
                let mut k: usize = 0;
                #[verifier::loop_isolation(false)]
                while k < m
                    invariant
                        self.version == pre_version,
                        self.iterations@ == pre.remove(i as int),
                        i < n,
                        n == pre.len(),
                        g == pre[i as int],
                        g.iterations@ == pre_its,
                        g.prd_name == pre[i as int].prd_name,
                        m == g.iterations@.len(),
                        k <= m,
                        forall|j: int| 0 <= j < k ==> !ipred(g.iterations@[j]),
                    decreases m - k,
                {
                    if g.iterations[k].iteration_number == iteration_number {
                        proof {
                            lemma_first_where_found(pre_its, ipred, k as int);
                        }
                        let mut it = g.iterations.remove(k);
                        it.session_id = session_id;
                        let ghost it_now = it;
                        g.iterations.insert(k, it);
                        proof {
                            assert(g.iterations@ =~= pre_its.update(k as int, it_now));
                        }
                        let ghost g_now = g;
                        self.iterations.insert(i, g);
                        proof {
                            assert(self.iterations@ =~= pre.update(i as int, g_now));
                        }
                        return ;
                    }
                    proof {
                        assert(!ipred(g.iterations@[k as int]));
                    }
                    k = k + 1;
                }
                proof {
                    lemma_first_where_none(pre_its, ipred);
                }
                let ghost g_now = g;
                self.iterations.insert(i, g);
                proof {
                    assert(self.iterations@ =~= pre.update(i as int, g_now));
                    assert(self.iterations@ =~= pre);
                }
                return ;
            }
            proof {
                assert(!pred(self.iterations@[i as int]));
            }
            i = i + 1;
        }
        proof {
            lemma_first_where_none(pre, pred);
        }
    }
}

} // verus!
