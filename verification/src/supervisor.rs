//! The process supervisor's registry: one record per in-flight provider
//! invocation, with a cooperatively polled cancellation flag.
//!
//! The registry is an explicitly owned object; the caller guards it with one
//! lock and spawns the execution context that streams the child's output.
//! Identities are issued from a counter that only grows, so every `start`
//! returns a fresh identity and none is ever reused.

use vstd::prelude::*;
use crate::provider::Provider;

verus! {

/// One in-flight provider invocation.
pub struct ManagedProcess {
    pub id: u64,
    pub provider: Provider,
    pub folder_path: String,
    pub resume_session_id: Option<String>,
    /// Monotonically settable: once true, never reset while registered.
    pub stop_requested: bool,
}

/// The record with its cancellation flag set.
pub open spec fn with_stop(p: ManagedProcess) -> ManagedProcess {
    ManagedProcess {
        id: p.id,
        provider: p.provider,
        folder_path: p.folder_path,
        resume_session_id: p.resume_session_id,
        stop_requested: true,
    }
}

/// The registry of managed processes.
pub struct ProcessRegistry {
    pub next_id: u64,
    pub entries: Vec<ManagedProcess>,
}

impl ProcessRegistry {
    /// The registered identities, oldest first.
    pub open spec fn ids(self) -> Seq<u64> {
        self.entries@.map_values(|p: ManagedProcess| p.id)
    }

    /// An identity is registered.
    pub open spec fn has_id(self, id: u64) -> bool {
        self.ids().contains(id)
    }

    /// The index of an identity's record; meaningful only when registered.
    pub open spec fn idx_of(self, id: u64) -> int {
        choose|i: int| 0 <= i < self.entries@.len() && self.entries@[i].id == id
    }

    /// The cancellation flag of a registered identity.
    pub open spec fn stop_of(self, id: u64) -> bool {
        self.entries@[self.idx_of(id)].stop_requested
    }

    /// Identities grow strictly along the registry and stay below the
    /// counter, so they are distinct and the counter's next value is fresh.
    pub open spec fn wf(self) -> bool {
        &&& forall|i: int, j: int|
            0 <= i < j < self.entries@.len() ==> self.entries@[i].id < self.entries@[j].id
        &&& forall|i: int|
            0 <= i < self.entries@.len() ==> (#[trigger] self.entries@[i].id) < self.next_id
    }

    /// The identity's record index is unique.
    proof fn lemma_idx(self, id: u64)
        requires
            self.wf(),
            self.has_id(id),
        ensures
            0 <= self.idx_of(id) < self.entries@.len(),
            self.entries@[self.idx_of(id)].id == id,
            forall|j: int|
                0 <= j < self.entries@.len() && self.entries@[j].id == id ==> j == self.idx_of(id),
    {
        let k = choose|k: int| 0 <= k < self.ids().len() && self.ids()[k] == id;
        assert(self.entries@[k].id == id);
        let i = self.idx_of(id);
        assert(0 <= i < self.entries@.len() && self.entries@[i].id == id);
        assert forall|j: int|
            0 <= j < self.entries@.len() && self.entries@[j].id == id implies j == i by {
            if j < i {
                assert(self.entries@[j].id < self.entries@[i].id);
            } else if i < j {
                assert(self.entries@[i].id < self.entries@[j].id);
            }
        }
    }

    /// An empty registry.
    pub fn new() -> (r: ProcessRegistry)
        ensures
            r.wf(),
            r.entries@.len() == 0,
            forall|id: u64| !r.has_id(id),
            r.next_id == 0,
    {
        let r = ProcessRegistry { next_id: 0, entries: Vec::new() };
        proof {
            assert forall|id: u64| !r.has_id(id) by {
                if r.has_id(id) {
                    let k = choose|k: int| 0 <= k < r.ids().len() && r.ids()[k] == id;
                }
            }
        }
        r
    }

    /// How many processes are registered.
    pub fn count(&self) -> (r: usize)
        ensures
            r == self.entries@.len(),
    {
        self.entries.len()
    }

    /// Accepts a run request: registers a new managed process with a fresh
    /// identity and a clear cancellation flag, and returns the identity.
    ///
    /// The message itself is not stored; it belongs to the execution context
    /// the caller spawns.  `None` comes back only when the identity space is
    /// exhausted.
    pub fn start(
        &mut self,
        provider: Provider,
        message: &str,
        folder_path: &String,
        resume_session_id: Option<String>,
    ) -> (r: Option<u64>)
        requires
            old(self).wf(),
            message@.len() > 0,
            folder_path@.len() > 0,
        ensures
            final(self).wf(),
            r is None <==> old(self).next_id == u64::MAX,
            match r {
                Some(id) => {
                    &&& id == old(self).next_id
                    &&& !old(self).has_id(id)
                    &&& final(self).next_id == old(self).next_id + 1
                    &&& final(self).entries@ == old(self).entries@.push(
                        ManagedProcess {
                            id,
                            provider,
                            folder_path: *folder_path,
                            resume_session_id,
                            stop_requested: false,
                        },
                    )
                    &&& final(self).has_id(id)
                    &&& !final(self).stop_of(id)
                },
                None => *final(self) == *old(self),
            },
    {
        if self.next_id == u64::MAX {
            return None;
        }
        let ghost pre = *self;
        let id = self.next_id;
        let entry = ManagedProcess {
            id,
            provider,
            folder_path: folder_path.clone(),
            resume_session_id,
            stop_requested: false,
        };
        self.entries.push(entry);
        self.next_id = self.next_id + 1;
        proof {
            let n = pre.entries@.len() as int;
            if pre.has_id(id) {
                let k = choose|k: int| 0 <= k < pre.ids().len() && pre.ids()[k] == id;
                assert(pre.entries@[k].id < pre.next_id);
            }
            assert(self.entries@[n].id == id);
            assert(self.ids()[n] == id);
            assert(self.has_id(id));
            self.lemma_idx(id);
            assert(self.idx_of(id) == n);
        }
        Some(id)
    }

    /// Requests cancellation: with an identity, sets that process's flag;
    /// with none, sets the flag of every registered process.
    ///
    /// Idempotent, and a no-op for an identity that is not registered: no
    /// record is added, removed or otherwise changed, and nothing is
    /// published.
    #[verifier::loop_isolation(false)]
    pub fn stop(&mut self, process_id: Option<u64>)
        requires
            old(self).wf(),
        ensures
            final(self).wf(),
            final(self).next_id == old(self).next_id,
            match process_id {
                Some(id) => {
                    &&& final(self).entries@ == old(self).entries@.map_values(
                        |p: ManagedProcess|
                            if p.id == id {
                                with_stop(p)
                            } else {
                                p
                            },
                    )
                    &&& !old(self).has_id(id) ==> final(self).entries@ == old(self).entries@
                },
                None => final(self).entries@ == old(self).entries@.map_values(
                    |p: ManagedProcess| with_stop(p),
                ),
            },
    {
        let ghost pre = *self;
        let ghost goal: Seq<ManagedProcess> = match process_id {
            Some(id) => pre.entries@.map_values(
                |p: ManagedProcess|
                    if p.id == id {
                        with_stop(p)
                    } else {
                        p
                    },
            ),
            None => pre.entries@.map_values(|p: ManagedProcess| with_stop(p)),
        };
        let mut done: Vec<ManagedProcess> = Vec::new();
        while self.entries.len() > 0
            invariant
                self.next_id == pre.next_id,
                pre.entries@.len() == done@.len() + self.entries@.len(),
                forall|j: int|
                    0 <= j < self.entries@.len() ==> self.entries@[j] == pre.entries@[j
                        + done@.len()],
                forall|j: int| 0 <= j < done@.len() ==> done@[j] == goal[j],
                goal.len() == pre.entries@.len(),
            decreases self.entries@.len(),
        {
            let ghost k = done@.len() as int;
            let ghost before = self.entries@;
            let ghost orig = self.entries@[0];
            let mut p = self.entries.remove(0);
            proof {
                assert(orig == pre.entries@[k]);
                assert forall|j: int|
                    0 <= j < self.entries@.len() implies self.entries@[j] == pre.entries@[j + k
                    + 1] by {
                    assert(self.entries@[j] == before.remove(0)[j]);
                    assert(before.remove(0)[j] == before[j + 1]);
                }
            }
            let flag = match process_id {
                Some(id) => p.id == id,
                None => true,
            };
            if flag {
                p.stop_requested = true;
            }
            let ghost p_now = p;
            done.push(p);
            proof {
                assert(goal[k] == match process_id {
                    Some(id) => if orig.id == id {
                        with_stop(orig)
                    } else {
                        orig
                    },
                    None => with_stop(orig),
                });
                assert(done@[k] == p_now);
                assert(p_now == goal[k]);
            }
        }
        self.entries = done;
        proof {
            assert(self.entries@ =~= goal);
            if process_id is Some {
                let id = process_id->Some_0;
                if !pre.has_id(id) {
                    assert forall|j: int| 0 <= j < goal.len() implies goal[j]
                        == pre.entries@[j] by {
                        if pre.entries@[j].id == id {
                            assert(pre.ids()[j] == id);
                        }
                    }
                    assert(self.entries@ =~= pre.entries@);
                }
            }
            assert forall|i: int, j: int|
                0 <= i < j < self.entries@.len() implies self.entries@[i].id
                < self.entries@[j].id by {
                assert(self.entries@[i].id == pre.entries@[i].id);
                assert(self.entries@[j].id == pre.entries@[j].id);
            }
            assert forall|i: int|
                0 <= i < self.entries@.len() implies (#[trigger] self.entries@[i].id)
                < self.next_id by {
                assert(self.entries@[i].id == pre.entries@[i].id);
            }
        }
    }

    /// The cancellation flag, as the execution context polls it before each
    /// read.  An identity no longer registered reads as not stopped.
    pub fn is_stop_requested(&self, id: u64) -> (r: bool)
        requires
            self.wf(),
        ensures
            r == (self.has_id(id) && self.stop_of(id)),
    {
        let n = self.entries.len();
        let mut i: usize = 0;
        while i < n
            invariant
                self.wf(),
                n == self.entries@.len(),
                i <= n,
                forall|j: int| 0 <= j < i ==> self.entries@[j].id != id,
            decreases n - i,
        {
            if self.entries[i].id == id {
                proof {
                    assert(self.ids()[i as int] == id);
                    self.lemma_idx(id);
                    assert(self.idx_of(id) == i);
                }
                return self.entries[i].stop_requested;
            }
            i = i + 1;
        }
        proof {
            if self.has_id(id) {
                let k = choose|k: int| 0 <= k < self.ids().len() && self.ids()[k] == id;
                assert(self.entries@[k].id == id);
            }
        }
        false
    }

    /// De-registers a finished process: the execution context calls this
    /// exactly once, immediately before it reports the terminal outcome.
    /// An identity not registered is a no-op.
    #[verifier::loop_isolation(false)]
    pub fn finish(&mut self, id: u64)
        requires
            old(self).wf(),
        ensures
            final(self).wf(),
            final(self).next_id == old(self).next_id,
            !final(self).has_id(id),
            !old(self).has_id(id) ==> final(self).entries@ == old(self).entries@,
            old(self).has_id(id) ==> final(self).entries@ == old(self).entries@.remove(
                old(self).idx_of(id),
            ),
    {
        let ghost pre = *self;
        let n = self.entries.len();
        let mut i: usize = 0;
        while i < n
            invariant
                pre == *self,
                pre.wf(),
                n == self.entries@.len(),
                i <= n,
                forall|j: int| 0 <= j < i ==> self.entries@[j].id != id,
            decreases n - i,
        {
            if self.entries[i].id == id {
                proof {
                    assert(pre.ids()[i as int] == id);
                    assert(pre.has_id(id));
                    pre.lemma_idx(id);
                    assert(pre.idx_of(id) == i);
                }
                let _ = self.entries.remove(i);
                proof {
                    assert(self.next_id == pre.next_id);
                    assert(self.entries@ == pre.entries@.remove(i as int));
                    assert forall|j: int|
                        0 <= j < self.entries@.len() implies self.entries@[j] == (if j < i {
                        pre.entries@[j]
                    } else {
                        pre.entries@[j + 1]
                    }) by {
                        assert(pre.entries@.remove(i as int)[j] == if j < i {
                            pre.entries@[j]
                        } else {
                            pre.entries@[j + 1]
                        });
                    }
                    assert forall|a: int, b: int|
                        0 <= a < b < self.entries@.len() implies self.entries@[a].id
                        < self.entries@[b].id by {
                        let pa = if a < i {
                            a
                        } else {
                            a + 1
                        };
                        let pb = if b < i {
                            b
                        } else {
                            b + 1
                        };
                        assert(pre.entries@[pa].id < pre.entries@[pb].id);
                    }
                    assert forall|a: int|
                        0 <= a < self.entries@.len() implies (#[trigger] self.entries@[a].id)
                        < self.next_id by {
                        let pa = if a < i {
                            a
                        } else {
                            a + 1
                        };
                        assert(pre.entries@[pa].id < pre.next_id);
                    }
                    if self.has_id(id) {
                        let k = choose|k: int| 0 <= k < self.ids().len() && self.ids()[k] == id;
                        assert(self.entries@[k].id == id);
                        let pk = if k < i {
                            k
                        } else {
                            k + 1
                        };
                        assert(pre.entries@[pk].id == id);
                        assert(pk != i);
                    }
                }
                return ;
            }
            i = i + 1;
        }
        proof {
            if pre.has_id(id) {
                let k = choose|k: int| 0 <= k < pre.ids().len() && pre.ids()[k] == id;
                assert(pre.entries@[k].id == id);
            }
        }
    }
}

/// Distinct identities: a well-formed registry never holds the same
/// identity in two records.
pub proof fn lemma_identities_distinct(r: ProcessRegistry)
    requires
        r.wf(),
    ensures
        forall|i: int, j: int|
            0 <= i < j < r.entries@.len() ==> r.entries@[i].id != r.entries@[j].id,
{
}

/// Stopping without an identity reaches every registered process: in the
/// registry `stop(None)` leaves behind, every identity that was registered
/// still is, and reads as stopped, so each execution context's next poll
/// takes the cancellation path.
pub proof fn lemma_stop_all_flags(pre: ProcessRegistry, post: ProcessRegistry)
    requires
        pre.wf(),
        post.next_id == pre.next_id,
        post.entries@ == pre.entries@.map_values(|p: ManagedProcess| with_stop(p)),
    ensures
        post.wf(),
        forall|id: u64| post.has_id(id) <==> pre.has_id(id),
        forall|id: u64| pre.has_id(id) ==> post.stop_of(id),
{
    assert(forall|j: int|
        0 <= j < post.entries@.len() ==> post.entries@[j].id == pre.entries@[j].id
            && post.entries@[j].stop_requested);
    assert(post.wf());
    assert forall|id: u64| post.has_id(id) <==> pre.has_id(id) by {
        if post.has_id(id) {
            let k = choose|k: int| 0 <= k < post.ids().len() && post.ids()[k] == id;
            assert(pre.entries@[k].id == id);
            assert(pre.ids()[k] == id);
        }
        if pre.has_id(id) {
            let k = choose|k: int| 0 <= k < pre.ids().len() && pre.ids()[k] == id;
            assert(post.entries@[k].id == id);
            assert(post.ids()[k] == id);
        }
    }
    assert forall|id: u64| pre.has_id(id) implies post.stop_of(id) by {
        post.lemma_idx(id);
    }
}

/// Stopping one identity reaches exactly that process: in the registry
/// `stop(Some(id))` leaves behind, the identity reads as stopped when it was
/// registered, and every other record is untouched.
pub proof fn lemma_stop_one_flag(pre: ProcessRegistry, post: ProcessRegistry, id: u64)
    requires
        pre.wf(),
        post.next_id == pre.next_id,
        post.entries@ == pre.entries@.map_values(
            |p: ManagedProcess|
                if p.id == id {
                    with_stop(p)
                } else {
                    p
                },
        ),
    ensures
        post.wf(),
        forall|other: u64| post.has_id(other) <==> pre.has_id(other),
        pre.has_id(id) ==> post.stop_of(id),
        forall|other: u64|
            pre.has_id(other) && other != id ==> post.entries@[post.idx_of(other)]
                == pre.entries@[pre.idx_of(other)],
{
    assert(forall|j: int|
        0 <= j < post.entries@.len() ==> post.entries@[j].id == pre.entries@[j].id);
    assert(post.wf());
    assert forall|other: u64| post.has_id(other) <==> pre.has_id(other) by {
        if post.has_id(other) {
            let k = choose|k: int| 0 <= k < post.ids().len() && post.ids()[k] == other;
            assert(pre.ids()[k] == other);
        }
        if pre.has_id(other) {
            let k = choose|k: int| 0 <= k < pre.ids().len() && pre.ids()[k] == other;
            assert(post.ids()[k] == other);
        }
    }
    if pre.has_id(id) {
        pre.lemma_idx(id);
        post.lemma_idx(id);
        let k = pre.idx_of(id);
        assert(post.entries@[k].id == id);
        assert(post.idx_of(id) == k);
        assert(post.entries@[k] == with_stop(pre.entries@[k]));
    }
    assert forall|other: u64|
        pre.has_id(other) && other != id implies post.entries@[post.idx_of(other)]
        == pre.entries@[pre.idx_of(other)] by {
        pre.lemma_idx(other);
        post.lemma_idx(other);
        let k = pre.idx_of(other);
        assert(post.entries@[k].id == other);
        assert(post.idx_of(other) == k);
        assert(pre.entries@[k].id != id);
    }
}

} // verus!
