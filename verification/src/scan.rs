//! The snapshot differ's scan step: reducing a directory listing to the
//! stem set the watcher diffs against.
//!
//! The listing itself comes from the caller; only names of plain files (for
//! plans) or of entry directories that hold the manifest file (for task
//! PRDs) are handed in.

use vstd::prelude::*;
use crate::fileset::FileSet;
use crate::text::md_stem;
use crate::text::md_stem_of;
use crate::text::views_of;

verus! {

/// The stems of the markdown files among the names, in listing order.
pub open spec fn md_stems(names: Seq<Seq<char>>) -> Seq<Seq<char>>
    decreases names.len(),
{
    if names.len() == 0 {
        Seq::empty()
    } else {
        let rest = md_stems(names.drop_last());
        match md_stem_of(names.last()) {
            Some(s) => rest.push(s),
            None => rest,
        }
    }
}

/// The stems of the markdown files among the listed file names, in order.
pub fn plan_stems(file_names: &Vec<String>) -> (r: Vec<String>)
    ensures
        views_of(r@) == md_stems(views_of(file_names@)),
{
    let mut r: Vec<String> = Vec::new();
    proof {
        assert(views_of(r@) =~= Seq::<Seq<char>>::empty());
        assert(views_of(file_names@).subrange(0, 0) =~= Seq::<Seq<char>>::empty());
    }
    let n = file_names.len();
    let mut i: usize = 0;
    #[verifier::loop_isolation(false)]
    while i < n
        invariant
            n == file_names@.len(),
            i <= n,
            views_of(r@) == md_stems(views_of(file_names@).subrange(0, i as int)),
        decreases n - i,
    {
        let ghost prefix = views_of(file_names@).subrange(0, i as int);
        let ghost before = r@;
        match md_stem(file_names[i].as_str()) {
            Some(stem) => {
                r.push(stem);
                proof {
                    assert(views_of(r@) =~= views_of(before).push(
                        md_stem_of(file_names@[i as int]@)->Some_0,
                    ));
                }
            },
            None => {},
        }
        proof {
            let prefix1 = views_of(file_names@).subrange(0, i as int + 1);
            assert(prefix1.drop_last() =~= prefix);
            assert(prefix1.last() == file_names@[i as int]@);
        }
        i = i + 1;
    }
    proof {
        assert(views_of(file_names@).subrange(0, n as int) =~= views_of(file_names@));
    }
    r
}

/// The plan stem set of one directory listing: the watcher's baseline and
/// the differ's fresh ground truth.
pub fn plan_stem_set(file_names: &Vec<String>) -> (r: FileSet)
    ensures
        r.wf(),
        r.seq_view() == crate::fileset::dedup_first(md_stems(views_of(file_names@))),
        forall|n: Seq<char>| r.has(n) <==> md_stems(views_of(file_names@)).contains(n),
{
    let stems = plan_stems(file_names);
    FileSet::from_names(&stems)
}

} // verus!
