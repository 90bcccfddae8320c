//! The change classifier: turns a watched directory's previous and current
//! stem sets into semantic change events.
//!
//! One add beside one remove in the same scan is taken for a rename.  That is
//! a best-effort heuristic, not a guarantee: an unrelated create and delete
//! landing in one scan are mistaken for a rename of each other.

use vstd::prelude::*;
use crate::fileset::FileSet;
use crate::fileset::seq_minus;
use crate::text::views_of;

verus! {

/// One semantic change to a watched directory, carrying the file stem(s)
/// it concerns.
#[derive(Clone, Debug)]
pub enum PlanChange {
    Created { file_name: String },
    Removed { file_name: String },
    Renamed { old_file_name: String, file_name: String },
    Modified { file_name: String },
}

/// The mathematical shadow of a `PlanChange`: the same shape over views.
pub enum ChangeLabel {
    Created(Seq<char>),
    Removed(Seq<char>),
    Renamed(Seq<char>, Seq<char>),
    Modified(Seq<char>),
}

/// The label of one change event.
pub open spec fn label_of(c: PlanChange) -> ChangeLabel {
    match c {
        PlanChange::Created { file_name } => ChangeLabel::Created(file_name@),
        PlanChange::Removed { file_name } => ChangeLabel::Removed(file_name@),
        PlanChange::Renamed { old_file_name, file_name } => ChangeLabel::Renamed(
            old_file_name@,
            file_name@,
        ),
        PlanChange::Modified { file_name } => ChangeLabel::Modified(file_name@),
    }
}

/// The labels of a sequence of change events, in order.
pub open spec fn labels_of(evs: Seq<PlanChange>) -> Seq<ChangeLabel> {
    evs.map_values(|c: PlanChange| label_of(c))
}

/// A `created` label per stem, in order.
pub open spec fn created_labels(ns: Seq<Seq<char>>) -> Seq<ChangeLabel> {
    ns.map_values(|n: Seq<char>| ChangeLabel::Created(n))
}

/// A `removed` label per stem, in order.
pub open spec fn removed_labels(ns: Seq<Seq<char>>) -> Seq<ChangeLabel> {
    ns.map_values(|n: Seq<char>| ChangeLabel::Removed(n))
}

/// The view of an optional stem.
pub open spec fn opt_view(h: Option<&String>) -> Option<Seq<char>> {
    match h {
        Some(s) => Some(s@),
        None => None,
    }
}

/// What one scan classifies to, given the previous and the current stem set
/// and, for raw modify events, the stem the event named.
///
/// Exactly one added stem beside exactly one removed stem is a rename;
/// otherwise each added stem is a creation and each removed stem a removal.
/// A modify hint that names a stem present both before and after is a
/// modification on top of either outcome.
pub open spec fn spec_classify(
    known: Seq<Seq<char>>,
    current: Seq<Seq<char>>,
    hint: Option<Seq<char>>,
) -> Seq<ChangeLabel> {
    let added = seq_minus(current, known);
    let removed = seq_minus(known, current);
    let base = if added.len() == 1 && removed.len() == 1 {
        seq![ChangeLabel::Renamed(removed[0], added[0])]
    } else {
        created_labels(added) + removed_labels(removed)
    };
    match hint {
        Some(h) => if known.contains(h) && current.contains(h) {
            base.push(ChangeLabel::Modified(h))
        } else {
            base
        },
        None => base,
    }
}

/// Classifies one observed directory change.
///
/// `known` is the stem set as of the last processed event, `current` a fresh
/// scan, and `modified_hint` the stem a raw modify event named, if any.  The
/// returned events are ordered: the rename or the creations first, then the
/// removals, then the modification.
pub fn classify(known: &FileSet, current: &FileSet, modified_hint: Option<&String>) -> (evs: Vec<
    PlanChange,
>)
    ensures
        labels_of(evs@) == spec_classify(known.seq_view(), current.seq_view(), opt_view(
            modified_hint,
        )),
{
    let ghost a = seq_minus(current.seq_view(), known.seq_view());
    let ghost rm = seq_minus(known.seq_view(), current.seq_view());
    let added: Vec<String> = current.diff(known);
    let removed: Vec<String> = known.diff(current);
    let mut evs: Vec<PlanChange> = Vec::new();
    if added.len() == 1 && removed.len() == 1 {
        let old_file_name = removed[0].clone();
        let file_name = added[0].clone();
        evs.push(PlanChange::Renamed { old_file_name, file_name });
        proof {
            assert(views_of(added@)[0] == a[0]);
            assert(views_of(removed@)[0] == rm[0]);
            assert(labels_of(evs@) =~= seq![ChangeLabel::Renamed(rm[0], a[0])]);
        }
    } else {
        let n = added.len();
        let mut i: usize = 0;
        while i < n
            invariant
                n == added@.len(),
                i <= n,
                views_of(added@) == a,
                labels_of(evs@) == created_labels(a.subrange(0, i as int)),
            decreases n - i,
        {
            let ghost before = evs@;
            let file_name = added[i].clone();
            evs.push(PlanChange::Created { file_name });
            proof {
                assert(labels_of(evs@) =~= labels_of(before).push(
                    ChangeLabel::Created(a[i as int]),
                ));
                assert(created_labels(a.subrange(0, i as int + 1)) =~= created_labels(
                    a.subrange(0, i as int),
                ).push(ChangeLabel::Created(a[i as int])));
            }
            i = i + 1;
        }
        proof {
            assert(a.subrange(0, n as int) =~= a);
        }
        let m = removed.len();
        let mut j: usize = 0;
        while j < m
            invariant
                m == removed@.len(),
                j <= m,
                views_of(removed@) == rm,
                labels_of(evs@) == created_labels(a) + removed_labels(rm.subrange(0, j as int)),
            decreases m - j,
        {
            let ghost before = evs@;
            let file_name = removed[j].clone();
            evs.push(PlanChange::Removed { file_name });
            proof {
                assert(labels_of(evs@) =~= labels_of(before).push(
                    ChangeLabel::Removed(rm[j as int]),
                ));
                assert(created_labels(a) + removed_labels(rm.subrange(0, j as int + 1))
                    =~= created_labels(a) + removed_labels(rm.subrange(0, j as int)).push(
                    ChangeLabel::Removed(rm[j as int]),
                ));
            }
            j = j + 1;
        }
        proof {
            assert(rm.subrange(0, m as int) =~= rm);
        }
    }
    if let Some(h) = modified_hint {
        if known.contains_name(h) && current.contains_name(h) {
            let ghost before = evs@;
            let file_name = h.clone();
            evs.push(PlanChange::Modified { file_name });
            proof {
                assert(labels_of(evs@) =~= labels_of(before).push(ChangeLabel::Modified(h@)));
            }
        }
    }
    evs
}

} // verus!
