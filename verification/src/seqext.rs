//! Generic facts about filtered sequences.

use vstd::prelude::*;

verus! {

/// Every element of a filtered sequence is an element of the original.
pub proof fn lemma_filter_contained<T>(s: Seq<T>, p: spec_fn(T) -> bool)
    ensures
        forall|i: int|
            0 <= i < s.filter(p).len() ==> s.contains(#[trigger] s.filter(p)[i]),
    decreases s.len(),
{
    if s.len() > 0 {
        let dl = s.drop_last();
        lemma_filter_contained(dl, p);
        assert(dl.push(s.last()) =~= s);
        dl.lemma_filter_push(s.last(), p);
        assert(s.filter(p) == if p(s.last()) {
            dl.filter(p).push(s.last())
        } else {
            dl.filter(p)
        });
        assert forall|i: int| 0 <= i < s.filter(p).len() implies s.contains(
            #[trigger] s.filter(p)[i],
        ) by {
            if i < dl.filter(p).len() {
                let x = dl.filter(p)[i];
                assert(dl.contains(x));
                let k = choose|k: int| 0 <= k < dl.len() && dl[k] == x;
                assert(s[k] == x);
            } else {
                assert(s.filter(p)[i] == s.last());
                assert(s[s.len() - 1] == s.last());
            }
        }
    }
}

/// Filtering preserves any relation that holds between every earlier and
/// every later element; in particular it preserves strict sortedness and
/// pairwise distinctness.
pub proof fn lemma_filter_ordered<T>(s: Seq<T>, p: spec_fn(T) -> bool, rel: spec_fn(T, T) -> bool)
    requires
        forall|i: int, j: int| 0 <= i < j < s.len() ==> rel(#[trigger] s[i], #[trigger] s[j]),
    ensures
        forall|i: int, j: int|
            0 <= i < j < s.filter(p).len() ==> rel(
                #[trigger] s.filter(p)[i],
                #[trigger] s.filter(p)[j],
            ),
    decreases s.len(),
{
    if s.len() > 0 {
        let dl = s.drop_last();
        assert(forall|i: int| 0 <= i < dl.len() ==> dl[i] == s[i]);
        lemma_filter_ordered(dl, p, rel);
        lemma_filter_contained(dl, p);
        assert(dl.push(s.last()) =~= s);
        dl.lemma_filter_push(s.last(), p);
        assert(s.filter(p) == if p(s.last()) {
            dl.filter(p).push(s.last())
        } else {
            dl.filter(p)
        });
        assert forall|i: int, j: int| 0 <= i < j < s.filter(p).len() implies rel(
            #[trigger] s.filter(p)[i],
            #[trigger] s.filter(p)[j],
        ) by {
            if j >= dl.filter(p).len() {
                let x = dl.filter(p)[i];
                assert(dl.contains(x));
                let k = choose|k: int| 0 <= k < dl.len() && dl[k] == x;
                assert(s[k] == x);
                assert(s.filter(p)[j] == s.last());
                assert(0 <= k < s.len() - 1);
                assert(rel(s[k], s[s.len() - 1]));
            }
        }
    }
}

} // verus!
