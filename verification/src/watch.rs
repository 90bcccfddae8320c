//! The folder watch registry: one entry per watched folder path, each holding
//! the last-known stem set per watched kind.
//!
//! The registry is an explicitly owned object; the caller serializes access
//! to it (one lock per registry) and owns the native watcher handles keyed
//! the same way.  Folder paths are compared as strings, never normalized.

use vstd::prelude::*;
use crate::classify::PlanChange;
use crate::classify::classify;
use crate::classify::labels_of;
use crate::classify::opt_view;
use crate::classify::spec_classify;
use crate::fileset::FileSet;
use crate::text::views_of;

verus! {

/// What a raw filesystem notification reported, reduced to the four cases
/// the watcher distinguishes.
#[derive(Clone, Copy, Debug, PartialEq, Eq, Structural)]
pub enum RawEventKind {
    Create,
    Modify,
    Remove,
    Other,
}

/// Only create, modify and remove notifications drive a rescan.
pub fn is_relevant(kind: RawEventKind) -> (r: bool)
    ensures
        r == (kind is Create || kind is Modify || kind is Remove),
{
    match kind {
        RawEventKind::Create => true,
        RawEventKind::Modify => true,
        RawEventKind::Remove => true,
        RawEventKind::Other => false,
    }
}

/// A notification touches the target path: the target occurs among the
/// paths the notification names.
pub fn event_touches(event_paths: &Vec<String>, target: &String) -> (r: bool)
    ensures
        r == views_of(event_paths@).contains(target@),
{
    let n = event_paths.len();
    let mut i: usize = 0;
    while i < n
        invariant
            n == event_paths@.len(),
            i <= n,
            forall|j: int| 0 <= j < i ==> views_of(event_paths@)[j] != target@,
        decreases n - i,
    {
        if event_paths[i].eq(target) {
            proof {
                assert(views_of(event_paths@)[i as int] == target@);
            }
            return true;
        }
        i = i + 1;
    }
    proof {
        if views_of(event_paths@).contains(target@) {
            let k = choose|k: int|
                0 <= k < views_of(event_paths@).len() && views_of(event_paths@)[k] == target@;
            assert(views_of(event_paths@)[k] != target@);
        }
    }
    false
}

/// The two kinds of per-folder artifacts a folder can be watched for.
#[derive(Clone, Copy, Debug, PartialEq, Eq, Structural)]
pub enum WatchKind {
    Plans,
    RalphPrds,
}

/// The watch state of one folder path.
pub struct FolderWatch {
    pub folder_path: String,
    pub plans: Option<FileSet>,
    pub prds: Option<FileSet>,
}

impl FolderWatch {
    /// The known-set stored for one kind, when that kind is watched.
    pub open spec fn kind_set(self, k: WatchKind) -> Option<FileSet> {
        match k {
            WatchKind::Plans => self.plans,
            WatchKind::RalphPrds => self.prds,
        }
    }

    /// Every stored stem set is well formed.
    pub open spec fn wf(self) -> bool {
        &&& (self.plans is Some ==> self.plans->Some_0.wf())
        &&& (self.prds is Some ==> self.prds->Some_0.wf())
    }
}

/// The registry of watched folders.
pub struct WatchRegistry {
    pub entries: Vec<FolderWatch>,
}

impl WatchRegistry {
    /// A folder path has an entry.
    pub open spec fn has_folder(self, f: Seq<char>) -> bool {
        exists|i: int| 0 <= i < self.entries@.len() && self.entries@[i].folder_path@ == f
    }

    /// The index of a folder's entry; meaningful only when the entry exists.
    pub open spec fn idx_of(self, f: Seq<char>) -> int {
        choose|i: int| 0 <= i < self.entries@.len() && self.entries@[i].folder_path@ == f
    }

    /// The known stems stored for one folder and kind, when watched.
    pub open spec fn kind_state(self, f: Seq<char>, k: WatchKind) -> Option<Seq<Seq<char>>> {
        if self.has_folder(f) {
            match self.entries@[self.idx_of(f)].kind_set(k) {
                Some(fs) => Some(fs.seq_view()),
                None => None,
            }
        } else {
            None
        }
    }

    /// Entries name distinct folders and hold well-formed stem sets.
    pub open spec fn wf(self) -> bool {
        &&& forall|i: int, j: int|
            0 <= i < j < self.entries@.len() ==> self.entries@[i].folder_path@
                != self.entries@[j].folder_path@
        &&& forall|i: int| 0 <= i < self.entries@.len() ==> (#[trigger] self.entries@[i]).wf()
    }

    /// The folder's entry index is unique.
    proof fn lemma_idx(self, f: Seq<char>)
        requires
            self.wf(),
            self.has_folder(f),
        ensures
            0 <= self.idx_of(f) < self.entries@.len(),
            self.entries@[self.idx_of(f)].folder_path@ == f,
            forall|j: int|
                0 <= j < self.entries@.len() && self.entries@[j].folder_path@ == f ==> j
                    == self.idx_of(f),
    {
        let i = self.idx_of(f);
        assert(0 <= i < self.entries@.len() && self.entries@[i].folder_path@ == f);
        assert forall|j: int|
            0 <= j < self.entries@.len() && self.entries@[j].folder_path@ == f implies j == i by {
            if j < i {
                assert(self.entries@[j].folder_path@ != self.entries@[i].folder_path@);
            } else if i < j {
                assert(self.entries@[i].folder_path@ != self.entries@[j].folder_path@);
            }
        }
    }

    /// An empty registry: nothing watched.
    pub fn new() -> (r: WatchRegistry)
        ensures
            r.wf(),
            forall|f: Seq<char>| !r.has_folder(f),
            forall|f: Seq<char>, k: WatchKind| r.kind_state(f, k) is None,
    {
        WatchRegistry { entries: Vec::new() }
    }

    /// Starts (or restarts) watching one folder for one kind, seeding the
    /// known-set with a fresh directory scan.
    ///
    /// Watching a folder and kind already watched replaces the previous
    /// known-set; watching a new kind of a known folder leaves the other
    /// kind's state alone.
    pub fn watch(&mut self, folder: &String, kind: WatchKind, initial: FileSet)
        requires
            old(self).wf(),
            initial.wf(),
        ensures
            final(self).wf(),
            final(self).kind_state(folder@, kind) == Some(initial.seq_view()),
            forall|k2: WatchKind|
                k2 != kind ==> final(self).kind_state(folder@, k2) == old(self).kind_state(
                    folder@,
                    k2,
                ),
            forall|g: Seq<char>, k2: WatchKind|
                g != folder@ ==> final(self).kind_state(g, k2) == old(self).kind_state(g, k2),
            forall|g: Seq<char>|
                final(self).has_folder(g) <==> (old(self).has_folder(g) || g == folder@),
    {
        let ghost pre = *self;
        match self.find_index(folder) {
            Some(i) => {
                proof {
                    pre.lemma_idx(folder@);
                }
                let mut entry = self.entries.remove(i);
                match kind {
                    WatchKind::Plans => {
                        entry.plans = Some(initial);
                    },
                    WatchKind::RalphPrds => {
                        entry.prds = Some(initial);
                    },
                }
                let ghost after_entry = entry;
                self.entries.insert(i, entry);
                proof {
                    assert(self.entries@ =~= pre.entries@.update(i as int, after_entry));
                    self.lemma_after_update(pre, i as int, kind, initial, folder@);
                }
            },
            None => {
                let folder_path = folder.clone();
                let entry = match kind {
                    WatchKind::Plans => FolderWatch { folder_path, plans: Some(initial), prds: None },
                    WatchKind::RalphPrds => FolderWatch {
                        folder_path,
                        plans: None,
                        prds: Some(initial),
                    },
                };
                let ghost new_entry = entry;
                self.entries.push(entry);
                proof {
                    self.lemma_after_push(pre, new_entry, kind, initial, folder@);
                }
            },
        }
    }

    /// After updating the folder's entry in place, the registry's observable
    /// state changes only at that folder and kind.
    proof fn lemma_after_update(
        self,
        pre: WatchRegistry,
        i: int,
        kind: WatchKind,
        initial: FileSet,
        f: Seq<char>,
    )
        requires
            pre.wf(),
            initial.wf(),
            0 <= i < pre.entries@.len(),
            pre.entries@[i].folder_path@ == f,
            self.entries@ == pre.entries@.update(
                i,
                match kind {
                    WatchKind::Plans => FolderWatch {
                        folder_path: pre.entries@[i].folder_path,
                        plans: Some(initial),
                        prds: pre.entries@[i].prds,
                    },
                    WatchKind::RalphPrds => FolderWatch {
                        folder_path: pre.entries@[i].folder_path,
                        plans: pre.entries@[i].plans,
                        prds: Some(initial),
                    },
                },
            ),
        ensures
            self.wf(),
            self.kind_state(f, kind) == Some(initial.seq_view()),
            forall|k2: WatchKind| k2 != kind ==> self.kind_state(f, k2) == pre.kind_state(f, k2),
            forall|g: Seq<char>, k2: WatchKind|
                g != f ==> self.kind_state(g, k2) == pre.kind_state(g, k2),
            forall|g: Seq<char>| self.has_folder(g) <==> (pre.has_folder(g) || g == f),
    {
        pre.lemma_idx(f);
        assert(forall|j: int|
            0 <= j < self.entries@.len() ==> self.entries@[j].folder_path@
                == pre.entries@[j].folder_path@);
        assert forall|g: Seq<char>| self.has_folder(g) <==> (pre.has_folder(g) || g == f) by {
            if self.has_folder(g) {
                let k = choose|k: int|
                    0 <= k < self.entries@.len() && self.entries@[k].folder_path@ == g;
                assert(pre.entries@[k].folder_path@ == g);
            }
            if pre.has_folder(g) {
                let k = choose|k: int|
                    0 <= k < pre.entries@.len() && pre.entries@[k].folder_path@ == g;
                assert(self.entries@[k].folder_path@ == g);
            }
            if g == f {
                assert(self.entries@[i].folder_path@ == g);
            }
        }
        assert(self.wf());
        self.lemma_idx(f);
        assert(self.idx_of(f) == i);
        assert forall|g: Seq<char>, k2: WatchKind|
            g != f implies self.kind_state(g, k2) == pre.kind_state(g, k2) by {
            if pre.has_folder(g) {
                pre.lemma_idx(g);
                self.lemma_idx(g);
                let j = pre.idx_of(g);
                assert(self.entries@[j].folder_path@ == g);
                assert(self.idx_of(g) == j);
                assert(j != i);
                assert(self.entries@[j] == pre.entries@[j]);
            }
        }
    }

    /// After appending a fresh entry, the registry's observable state gains
    /// exactly that folder and kind.
    proof fn lemma_after_push(
        self,
        pre: WatchRegistry,
        entry: FolderWatch,
        kind: WatchKind,
        initial: FileSet,
        f: Seq<char>,
    )
        requires
            pre.wf(),
            initial.wf(),
            !pre.has_folder(f),
            entry.folder_path@ == f,
            entry.kind_set(kind) == Some(initial),
            forall|k2: WatchKind| k2 != kind ==> entry.kind_set(k2) is None,
            entry.wf(),
            self.entries@ == pre.entries@.push(entry),
        ensures
            self.wf(),
            self.kind_state(f, kind) == Some(initial.seq_view()),
            forall|k2: WatchKind| k2 != kind ==> self.kind_state(f, k2) == pre.kind_state(f, k2),
            forall|g: Seq<char>, k2: WatchKind|
                g != f ==> self.kind_state(g, k2) == pre.kind_state(g, k2),
            forall|g: Seq<char>| self.has_folder(g) <==> (pre.has_folder(g) || g == f),
    {
        let n = pre.entries@.len() as int;
        assert forall|g: Seq<char>| self.has_folder(g) <==> (pre.has_folder(g) || g == f) by {
            if self.has_folder(g) {
                let k = choose|k: int|
                    0 <= k < self.entries@.len() && self.entries@[k].folder_path@ == g;
                if k < n {
                    assert(pre.entries@[k].folder_path@ == g);
                }
            }
            if pre.has_folder(g) {
                let k = choose|k: int|
                    0 <= k < pre.entries@.len() && pre.entries@[k].folder_path@ == g;
                assert(self.entries@[k].folder_path@ == g);
            }
            if g == f {
                assert(self.entries@[n].folder_path@ == g);
            }
        }
        assert forall|a: int, b: int|
            0 <= a < b < self.entries@.len() implies self.entries@[a].folder_path@
            != self.entries@[b].folder_path@ by {
            if b < n {
                assert(pre.entries@[a].folder_path@ != pre.entries@[b].folder_path@);
            } else {
                assert(self.entries@[b].folder_path@ == f);
                if self.entries@[a].folder_path@ == f {
                    assert(pre.entries@[a].folder_path@ == f);
                }
            }
        }
        assert(self.wf());
        self.lemma_idx(f);
        assert(self.entries@[n].folder_path@ == f);
        assert(self.idx_of(f) == n);
        assert forall|g: Seq<char>, k2: WatchKind|
            g != f implies self.kind_state(g, k2) == pre.kind_state(g, k2) by {
            if pre.has_folder(g) {
                pre.lemma_idx(g);
                self.lemma_idx(g);
                let j = pre.idx_of(g);
                assert(self.entries@[j].folder_path@ == g);
                assert(self.idx_of(g) == j);
                assert(self.entries@[j] == pre.entries@[j]);
            }
        }
    }

    /// Stops watching a folder: drops its whole entry, every kind at once.
    ///
    /// This is the single designed way to release a folder's watch state;
    /// stopping a folder that is not watched is a no-op.
    pub fn stop_watching(&mut self, folder: &String)
        requires
            old(self).wf(),
        ensures
            final(self).wf(),
            !final(self).has_folder(folder@),
            forall|g: Seq<char>, k2: WatchKind|
                g != folder@ ==> final(self).kind_state(g, k2) == old(self).kind_state(g, k2),
            forall|g: Seq<char>|
                final(self).has_folder(g) <==> (old(self).has_folder(g) && g != folder@),
    {
        let ghost pre = *self;
        match self.find_index(folder) {
            Some(i) => {
                proof {
                    pre.lemma_idx(folder@);
                }
                let _ = self.entries.remove(i);
                proof {
                    self.lemma_after_remove(pre, i as int, folder@);
                }
            },
            None => {},
        }
    }

    /// After removing the folder's entry, every other folder's observable
    /// state is untouched.
    proof fn lemma_after_remove(self, pre: WatchRegistry, i: int, f: Seq<char>)
        requires
            pre.wf(),
            0 <= i < pre.entries@.len(),
            pre.entries@[i].folder_path@ == f,
            forall|j: int|
                0 <= j < pre.entries@.len() && pre.entries@[j].folder_path@ == f ==> j == i,
            self.entries@ == pre.entries@.remove(i),
        ensures
            self.wf(),
            !self.has_folder(f),
            forall|g: Seq<char>, k2: WatchKind|
                g != f ==> self.kind_state(g, k2) == pre.kind_state(g, k2),
            forall|g: Seq<char>| self.has_folder(g) <==> (pre.has_folder(g) && g != f),
    {
        let n = pre.entries@.len() as int;
        assert(self.entries@.len() == n - 1);
        assert(forall|j: int| 0 <= j < i ==> self.entries@[j] == pre.entries@[j]);
        assert(forall|j: int| i <= j < n - 1 ==> self.entries@[j] == pre.entries@[j + 1]);
        assert forall|g: Seq<char>| self.has_folder(g) <==> (pre.has_folder(g) && g != f) by {
            if self.has_folder(g) {
                let k = choose|k: int|
                    0 <= k < self.entries@.len() && self.entries@[k].folder_path@ == g;
                if k < i {
                    assert(pre.entries@[k].folder_path@ == g);
                } else {
                    assert(pre.entries@[k + 1].folder_path@ == g);
                }
            }
            if pre.has_folder(g) && g != f {
                let k = choose|k: int|
                    0 <= k < pre.entries@.len() && pre.entries@[k].folder_path@ == g;
                if k < i {
                    assert(self.entries@[k].folder_path@ == g);
                } else {
                    assert(k != i);
                    assert(self.entries@[k - 1].folder_path@ == g);
                }
            }
        }
        assert forall|a: int, b: int|
            0 <= a < b < self.entries@.len() implies self.entries@[a].folder_path@
            != self.entries@[b].folder_path@ by {
            let pa = if a < i {
                a
            } else {
                a + 1
            };
            let pb = if b < i {
                b
            } else {
                b + 1
            };
            assert(pre.entries@[pa].folder_path@ != pre.entries@[pb].folder_path@);
        }
        assert(self.wf());
        assert forall|g: Seq<char>, k2: WatchKind|
            g != f implies self.kind_state(g, k2) == pre.kind_state(g, k2) by {
            if pre.has_folder(g) {
                pre.lemma_idx(g);
                self.lemma_idx(g);
                let j = pre.idx_of(g);
                let j2 = if j < i {
                    j
                } else {
                    j - 1
                };
                assert(j != i);
                assert(self.entries@[j2] == pre.entries@[j]);
                assert(self.idx_of(g) == j2);
            }
        }
    }

    /// Processes one raw notification for a watched folder and kind.
    ///
    /// `current` is a fresh scan of the watched directory; the raw event's
    /// own metadata is not trusted for what changed.  When the folder and
    /// kind are watched, the scan is diffed against the stored known-set,
    /// the known-set is replaced by the scan, and the classified events are
    /// returned for publication (the caller follows them with the generic
    /// refresh signal).  A modify hint takes effect only when the raw event
    /// was a modification.  When the folder or kind is not watched — in
    /// particular after `stop_watching` — nothing changes and no events
    /// come back.
    pub fn handle_event(
        &mut self,
        folder: &String,
        kind: WatchKind,
        raw: RawEventKind,
        current: FileSet,
        modified_hint: Option<&String>,
    ) -> (r: Option<Vec<PlanChange>>)
        requires
            old(self).wf(),
            current.wf(),
        ensures
            final(self).wf(),
            forall|g: Seq<char>| final(self).has_folder(g) <==> old(self).has_folder(g),
            match old(self).kind_state(folder@, kind) {
                None => r is None && forall|g: Seq<char>, k2: WatchKind|
                    final(self).kind_state(g, k2) == old(self).kind_state(g, k2),
                Some(ks) => match r {
                    Some(evs) => {
                        &&& labels_of(evs@) == spec_classify(
                            ks,
                            current.seq_view(),
                            if raw is Modify {
                                opt_view(modified_hint)
                            } else {
                                None
                            },
                        )
                        &&& final(self).kind_state(folder@, kind) == Some(current.seq_view())
                        &&& forall|g: Seq<char>, k2: WatchKind|
                            !(g == folder@ && k2 == kind) ==> final(self).kind_state(g, k2)
                                == old(self).kind_state(g, k2)
                    },
                    None => false,
                },
            },
    {
        let ghost pre = *self;
        let eff_hint: Option<&String> = match raw {
            RawEventKind::Modify => modified_hint,
            _ => None,
        };
        match self.find_index(folder) {
            None => None,
            Some(i) => {
                proof {
                    pre.lemma_idx(folder@);
                    assert(pre.idx_of(folder@) == i);
                }
                let watched = match kind {
                    WatchKind::Plans => self.entries[i].plans.is_some(),
                    WatchKind::RalphPrds => self.entries[i].prds.is_some(),
                };
                if !watched {
                    return None;
                }
                let evs = match kind {
                    WatchKind::Plans => classify(
                        self.entries[i].plans.as_ref().unwrap(),
                        &current,
                        eff_hint,
                    ),
                    WatchKind::RalphPrds => classify(
                        self.entries[i].prds.as_ref().unwrap(),
                        &current,
                        eff_hint,
                    ),
                };
                let mut entry = self.entries.remove(i);
                match kind {
                    WatchKind::Plans => {
                        entry.plans = Some(current);
                    },
                    WatchKind::RalphPrds => {
                        entry.prds = Some(current);
                    },
                }
                let ghost after_entry = entry;
                self.entries.insert(i, entry);
                proof {
                    assert(self.entries@ =~= pre.entries@.update(i as int, after_entry));
                    self.lemma_after_update(pre, i as int, kind, current, folder@);
                }
                Some(evs)
            },
        }
    }

    /// The index of the folder's entry, if one exists.
    fn find_index(&self, folder: &String) -> (r: Option<usize>)
        ensures
            match r {
                Some(i) => i < self.entries@.len() && self.entries@[i as int].folder_path@
                    == folder@,
                None => !self.has_folder(folder@),
            },
    {
        let n = self.entries.len();
        let mut i: usize = 0;
        while i < n
            invariant
                n == self.entries@.len(),
                i <= n,
                forall|j: int| 0 <= j < i ==> self.entries@[j].folder_path@ != folder@,
            decreases n - i,
        {
            if self.entries[i].folder_path.eq(folder) {
                return Some(i);
            }
            i = i + 1;
        }
        proof {
            if self.has_folder(folder@) {
                let k = choose|k: int|
                    0 <= k < self.entries@.len() && self.entries@[k].folder_path@ == folder@;
                assert(self.entries@[k].folder_path@ != folder@);
            }
        }
        None
    }
}

/// A folder without an entry has no watch state of any kind.  Once
/// `stop_watching` has removed a folder's entry, `handle_event` therefore
/// returns no events and changes nothing for that folder, however the
/// directory keeps changing on disk, until a new `watch` call registers it
/// again.
pub proof fn lemma_unwatched_folder_silent(reg: WatchRegistry, f: Seq<char>, k: WatchKind)
    requires
        !reg.has_folder(f),
    ensures
        reg.kind_state(f, k) is None,
{
}

} // verus!
