//! Facts about filtering sequences one element at a time.
use vstd::prelude::*;

verus! {

/// Filtering one more element of a prefix either keeps it at the end or
/// leaves the filtered prefix as it was.
pub proof fn lemma_filter_take_step<A>(s: Seq<A>, i: int, p: spec_fn(A) -> bool)
    requires
        0 <= i < s.len(),
    ensures
        s.take(i + 1).filter(p) == if p(s[i]) {
            s.take(i).filter(p).push(s[i])
        } else {
            s.take(i).filter(p)
        },
        s.take(i).filter(p).len() <= i,
{
    reveal(Seq::filter);
    assert(s.take(i + 1).drop_last() =~= s.take(i));
    s.take(i).lemma_filter_len(p);
}

} // verus!

verus! {

/// Filtering keeps everything when everything passes.
pub proof fn lemma_filter_keeps_all<A>(s: Seq<A>, p: spec_fn(A) -> bool)
    requires
        forall|k: int| 0 <= k < s.len() ==> p(#[trigger] s[k]),
    ensures
        s.filter(p) == s,
    decreases s.len(),
{
    reveal(Seq::filter);
    if s.len() > 0 {
        let q = s.drop_last();
        assert forall|k: int| 0 <= k < q.len() implies p(#[trigger] q[k]) by {
            assert(q[k] == s[k]);
        }
        lemma_filter_keeps_all(q, p);
        assert(q.push(s.last()) =~= s);
    }
}

/// Filtering removes exactly the one element that fails.
pub proof fn lemma_filter_all_but_one<A>(s: Seq<A>, p: spec_fn(A) -> bool, j: int)
    requires
        0 <= j < s.len(),
        !p(s[j]),
        forall|k: int| 0 <= k < s.len() && k != j ==> p(#[trigger] s[k]),
    ensures
        s.filter(p) == s.remove(j),
    decreases s.len(),
{
    reveal(Seq::filter);
    let q = s.drop_last();
    if j == s.len() - 1 {
        assert forall|k: int| 0 <= k < q.len() implies p(#[trigger] q[k]) by {
            assert(q[k] == s[k]);
        }
        lemma_filter_keeps_all(q, p);
        assert(s.remove(j) =~= q);
    } else {
        assert forall|k: int| 0 <= k < q.len() && k != j implies p(#[trigger] q[k]) by {
            assert(q[k] == s[k]);
        }
        lemma_filter_all_but_one(q, p, j);
        assert(p(s.last()));
        assert(s.remove(j) =~= q.remove(j).push(s.last()));
    }
}

/// Filtering twice by the same test is filtering once.
pub proof fn lemma_filter_idempotent<A>(s: Seq<A>, p: spec_fn(A) -> bool)
    ensures
        s.filter(p).filter(p) == s.filter(p),
{
    let w = s.filter(p);
    assert forall|k: int| 0 <= k < w.len() implies p(#[trigger] w[k]) by {
        s.lemma_filter_pred(p, k);
    }
    lemma_filter_keeps_all(w, p);
}

} // verus!

verus! {

/// What holds of every element still holds of every element kept.
pub proof fn lemma_filter_all<A>(s: Seq<A>, p: spec_fn(A) -> bool, q: spec_fn(A) -> bool)
    requires
        forall|k: int| 0 <= k < s.len() ==> q(#[trigger] s[k]),
    ensures
        forall|k: int| 0 <= k < s.filter(p).len() ==> q(#[trigger] s.filter(p)[k]),
    decreases s.len(),
{
    reveal(Seq::filter);
    if s.len() > 0 {
        let d = s.drop_last();
        assert forall|k: int| 0 <= k < d.len() implies q(#[trigger] d[k]) by {
            assert(d[k] == s[k]);
        }
        lemma_filter_all(d, p, q);
        let fd = d.filter(p);
        if p(s.last()) {
            assert(s.filter(p) == fd.push(s.last()));
            assert forall|k: int| 0 <= k < s.filter(p).len() implies q(#[trigger] s.filter(p)[k]) by {
                if k < fd.len() {
                    assert(s.filter(p)[k] == fd[k]);
                }
            }
        } else {
            assert(s.filter(p) == fd);
        }
    }
}

} // verus!
