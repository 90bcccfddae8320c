//! String-level helpers shared across the crate: substring search, case
//! folding, and the small name transformations the subsystem performs.

use vstd::prelude::*;
use vstd::string::StrSliceExecFns;
use vstd::string::StringExecFns;

verus! {

/// The views of a sequence of strings, element by element.
pub open spec fn views_of(ss: Seq<String>) -> Seq<Seq<char>> {
    ss.map_values(|s: String| s@)
}

/// `n` occurs as a contiguous run of characters inside `h`.
pub open spec fn contains_seq(h: Seq<char>, n: Seq<char>) -> bool {
    exists|i: int| 0 <= i && i + n.len() <= h.len() && #[trigger] h.subrange(i, i + n.len()) == n
}

/// Relies on str::contains: true exactly when the pattern matches a
/// sub-slice of the string.
#[verifier::external_body]
pub fn contains_str(h: &str, n: &str) -> (r: bool)
    ensures
        r == contains_seq(h@, n@),
{
    h.contains(n)
}

/// What str::to_lowercase returns; a function of the characters alone.
pub uninterp spec fn lower_of(s: Seq<char>) -> Seq<char>;

/// Relies on str::to_lowercase: the result depends only on the characters
/// of the input.
#[verifier::external_body]
pub fn to_lowercase(s: &str) -> (r: String)
    ensures
        r@ == lower_of(s@),
{
    s.to_lowercase()
}

/// Relies on String::push: appends the one character to the end.
#[verifier::external_body]
pub fn push_char(s: &mut String, c: char)
    ensures
        final(s)@ == old(s)@.push(c),
{
    s.push(c);
}

/// Every `/` replaced by `-`, all other characters kept.
pub open spec fn dash_for_slash(s: Seq<char>) -> Seq<char> {
    s.map_values(|c: char| if c == '/' { '-' } else { c })
}

/// The directory name under which an agent stores a folder's session
/// transcripts: the folder path with every `/` turned into `-`.
pub fn project_dir_name(folder_path: &str) -> (r: String)
    ensures
        r@ == dash_for_slash(folder_path@),
{
    let n = folder_path.unicode_len();
    let mut out = String::new();
    let mut i: usize = 0;
    while i < n
        invariant
            n == folder_path@.len(),
            i <= n,
            out@ == dash_for_slash(folder_path@.subrange(0, i as int)),
        decreases n - i,
    {
        let c = folder_path.get_char(i);
        if c == '/' {
            push_char(&mut out, '-');
        } else {
            push_char(&mut out, c);
        }
        proof {
            assert(dash_for_slash(folder_path@.subrange(0, i as int + 1)) =~= dash_for_slash(
                folder_path@.subrange(0, i as int),
            ).push(if folder_path@[i as int] == '/' {
                '-'
            } else {
                folder_path@[i as int]
            }));
        }
        i = i + 1;
    }
    proof {
        assert(folder_path@.subrange(0, n as int) =~= folder_path@);
    }
    out
}

/// The stem of a markdown file name: the name with a final `.md` taken off,
/// provided something precedes it.  Any other name has no stem.
pub open spec fn md_stem_of(name: Seq<char>) -> Option<Seq<char>> {
    if name.len() > 3 && name.subrange(name.len() - 3, name.len() as int) == ".md"@ {
        Some(name.subrange(0, name.len() - 3))
    } else {
        None
    }
}

/// The stem of a plan file name, when the name is one.
pub fn md_stem(name: &str) -> (r: Option<String>)
    ensures
        match r {
            Some(stem) => md_stem_of(name@) == Some(stem@),
            None => md_stem_of(name@) is None,
        },
{
    proof {
        reveal_strlit(".md");
    }
    let n = name.unicode_len();
    if n <= 3 {
        proof {
            assert(md_stem_of(name@) is None);
        }
        return None;
    }
    let is_md = name.get_char(n - 3) == '.' && name.get_char(n - 2) == 'm' && name.get_char(
        n - 1,
    ) == 'd';
    proof {
        if is_md {
            assert(name@.subrange(n - 3, n as int) =~= ".md"@);
        } else {
            assert(name@.subrange(n - 3, n as int) != ".md"@) by {
                if name@.subrange(n - 3, n as int) == ".md"@ {
                    assert(name@.subrange(n - 3, n as int)[0] == '.');
                    assert(name@.subrange(n - 3, n as int)[1] == 'm');
                    assert(name@.subrange(n - 3, n as int)[2] == 'd');
                }
            }
        }
    }
    if is_md {
        let stem = name.substring_char(0, n - 3);
        Some(String::from_str(stem))
    } else {
        None
    }
}

} // verus!
