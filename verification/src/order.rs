//! Lexicographic ordering of names, for the sorted directory listings shown
//! to the user.  Names compare byte-wise on their UTF-8 encodings, the order
//! the standard library gives strings.

use vstd::prelude::*;
use vstd::multiset::Multiset;
use vstd::string::StringSliceAdditionalSpecFns;
use vstd::utf8::encode_utf8;
use crate::scan::md_stems;
use crate::scan::plan_stems;
use crate::text::views_of;

verus! {

/// Byte-wise lexicographic order: the empty sequence first, then by the
/// first differing byte.
pub open spec fn lex_le(a: Seq<u8>, b: Seq<u8>) -> bool
    decreases a.len(),
{
    if a.len() == 0 {
        true
    } else if b.len() == 0 {
        false
    } else if a[0] < b[0] {
        true
    } else if a[0] > b[0] {
        false
    } else {
        lex_le(a.drop_first(), b.drop_first())
    }
}

/// Names ordered by the lexicographic order of their encodings.
pub open spec fn sorted_names(s: Seq<Seq<char>>) -> bool {
    forall|i: int, j: int|
        0 <= i < j < s.len() ==> lex_le(encode_utf8(s[i]), encode_utf8(s[j]))
}

/// The order is reflexive.
pub proof fn lemma_lex_refl(a: Seq<u8>)
    ensures
        lex_le(a, a),
    decreases a.len(),
{
    if a.len() > 0 {
        lemma_lex_refl(a.drop_first());
    }
}

/// The order is total.
pub proof fn lemma_lex_total(a: Seq<u8>, b: Seq<u8>)
    ensures
        lex_le(a, b) || lex_le(b, a),
    decreases a.len(),
{
    if a.len() > 0 && b.len() > 0 && a[0] == b[0] {
        lemma_lex_total(a.drop_first(), b.drop_first());
    }
}

/// The order is transitive.
pub proof fn lemma_lex_trans(a: Seq<u8>, b: Seq<u8>, c: Seq<u8>)
    requires
        lex_le(a, b),
        lex_le(b, c),
    ensures
        lex_le(a, c),
    decreases a.len(),
{
    if a.len() > 0 && b.len() > 0 && c.len() > 0 && a[0] == b[0] && b[0] == c[0] {
        lemma_lex_trans(a.drop_first(), b.drop_first(), c.drop_first());
    }
}

/// Compares two names in the byte-wise lexicographic order.
pub fn str_le(a: &String, b: &String) -> (r: bool)
    ensures
        r == lex_le(encode_utf8(a@), encode_utf8(b@)),
{
    let ab = a.as_str().as_bytes();
    let bb = b.as_str().as_bytes();
    let ghost av = encode_utf8(a@);
    let ghost bv = encode_utf8(b@);
    let an = ab.len();
    let bn = bb.len();
    let mut i: usize = 0;
    proof {
        assert(av.skip(0) =~= av);
        assert(bv.skip(0) =~= bv);
    }
    #[verifier::loop_isolation(false)]
    while i < an && i < bn
        invariant
            ab@ == av,
            bb@ == bv,
            an == av.len(),
            bn == bv.len(),
            i <= an,
            i <= bn,
            lex_le(av, bv) == lex_le(av.skip(i as int), bv.skip(i as int)),
        decreases an - i,
    {
        let x = ab[i];
        let y = bb[i];
        proof {
            assert(av.skip(i as int)[0] == av[i as int]);
            assert(bv.skip(i as int)[0] == bv[i as int]);
        }
        if x < y {
            return true;
        }
        if x > y {
            return false;
        }
        proof {
            assert(av.skip(i as int).drop_first() =~= av.skip(i as int + 1));
            assert(bv.skip(i as int).drop_first() =~= bv.skip(i as int + 1));
        }
        i = i + 1;
    }
    proof {
        if i >= an {
            assert(av.skip(i as int).len() == 0);
        } else {
            assert(bv.skip(i as int).len() == 0);
            assert(av.skip(i as int).len() > 0);
        }
    }
    i >= an
}

/// Sorts names into the byte-wise lexicographic order, keeping exactly the
/// given names (as a multiset: duplicates survive).
pub fn sort_names(names: Vec<String>) -> (r: Vec<String>)
    ensures
        sorted_names(views_of(r@)),
        views_of(r@).to_multiset() == views_of(names@).to_multiset(),
{
    broadcast use vstd::seq_lib::group_to_multiset_ensures;
    broadcast use vstd::multiset::group_multiset_axioms;

    let ghost total = views_of(names@).to_multiset();
    let mut rest = names;
    let mut out: Vec<String> = Vec::new();
    proof {
        assert(views_of(out@) =~= Seq::<Seq<char>>::empty());
        assert(views_of(out@).to_multiset().add(views_of(rest@).to_multiset()) =~= total);
    }
    #[verifier::loop_isolation(false)]
    while rest.len() > 0
        invariant
            views_of(out@).to_multiset().add(views_of(rest@).to_multiset()) == total,
            sorted_names(views_of(out@)),
            forall|i: int, j: int|
                0 <= i < views_of(out@).len() && 0 <= j < views_of(rest@).len() ==> lex_le(
                    encode_utf8(views_of(out@)[i]),
                    encode_utf8(views_of(rest@)[j]),
                ),
        decreases rest@.len(),
    {
        let n = rest.len();
        let mut m: usize = 0;
        let mut j: usize = 1;
        proof {
            lemma_lex_refl(encode_utf8(views_of(rest@)[0]));
        }
        #[verifier::loop_isolation(false)]
        while j < n
            invariant
                n == rest@.len(),
                m < j <= n,
                forall|k: int|
                    0 <= k < j ==> lex_le(
                        encode_utf8(views_of(rest@)[m as int]),
                        encode_utf8(views_of(rest@)[k]),
                    ),
            decreases n - j,
        {
            if str_le(&rest[j], &rest[m]) {
                proof {
                    assert forall|k: int|
                        0 <= k < j + 1 implies lex_le(
                        encode_utf8(views_of(rest@)[j as int]),
                        encode_utf8(views_of(rest@)[k]),
                    ) by {
                        if k == j {
                            lemma_lex_refl(encode_utf8(views_of(rest@)[j as int]));
                        } else {
                            lemma_lex_trans(
                                encode_utf8(views_of(rest@)[j as int]),
                                encode_utf8(views_of(rest@)[m as int]),
                                encode_utf8(views_of(rest@)[k]),
                            );
                        }
                    }
                }
                m = j;
            } else {
                proof {
                    lemma_lex_total(
                        encode_utf8(views_of(rest@)[j as int]),
                        encode_utf8(views_of(rest@)[m as int]),
                    );
                }
            }
            j = j + 1;
        }
        let ghost rest_pre = rest@;
        let ghost out_pre = out@;
        let v = rest.remove(m);
        out.push(v);
        proof {
            assert(views_of(rest@) =~= views_of(rest_pre).remove(m as int));
            assert(views_of(out@) =~= views_of(out_pre).push(views_of(rest_pre)[m as int]));
            assert(views_of(rest_pre).remove(m as int).to_multiset() =~= views_of(
                rest_pre,
            ).to_multiset().remove(views_of(rest_pre)[m as int]));
            assert(views_of(out@).to_multiset() =~= views_of(out_pre).to_multiset().insert(
                views_of(rest_pre)[m as int],
            ));
            assert(views_of(out@).to_multiset().add(views_of(rest@).to_multiset()) =~= total);
            assert forall|a: int, b: int|
                0 <= a < b < views_of(out@).len() implies lex_le(
                encode_utf8(views_of(out@)[a]),
                encode_utf8(views_of(out@)[b]),
            ) by {
                if b < views_of(out_pre).len() {
                    assert(views_of(out@)[a] == views_of(out_pre)[a]);
                    assert(views_of(out@)[b] == views_of(out_pre)[b]);
                } else {
                    assert(views_of(out@)[a] == views_of(out_pre)[a]);
                    assert(views_of(out@)[b] == views_of(rest_pre)[m as int]);
                }
            }
            assert forall|a: int, b: int|
                0 <= a < views_of(out@).len() && 0 <= b < views_of(rest@).len() implies lex_le(
                encode_utf8(views_of(out@)[a]),
                encode_utf8(views_of(rest@)[b]),
            ) by {
                let pb = if b < m {
                    b
                } else {
                    b + 1
                };
                assert(views_of(rest@)[b] == views_of(rest_pre)[pb]);
                if a < views_of(out_pre).len() {
                    assert(views_of(out@)[a] == views_of(out_pre)[a]);
                } else {
                    assert(views_of(out@)[a] == views_of(rest_pre)[m as int]);
                }
            }
        }
    }
    proof {
        assert(views_of(rest@).to_multiset() =~= Multiset::<Seq<char>>::empty());
        assert(views_of(out@).to_multiset() =~= total);
    }
    out
}

/// The plan listing: the stems of the markdown files among the listed file
/// names, sorted.
pub fn list_plan_names(file_names: &Vec<String>) -> (r: Vec<String>)
    ensures
        sorted_names(views_of(r@)),
        views_of(r@).to_multiset() == md_stems(views_of(file_names@)).to_multiset(),
{
    let stems = plan_stems(file_names);
    sort_names(stems)
}

} // verus!
