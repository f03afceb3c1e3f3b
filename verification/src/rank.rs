//! Stable ordering of scored items, highest score first.
use vstd::prelude::*;

verus! {

broadcast use vstd::seq_lib::to_multiset_insert;

/// The first position at or after `i` whose score is below `k` (or `s.len()`).
pub open spec fn first_below<A>(s: Seq<(u64, A)>, k: u64, i: int) -> int
    decreases s.len() - i,
{
    if i >= s.len() || s[i].0 < k { i } else { first_below(s, k, i + 1) }
}

/// `s` with `x` placed after every item scoring at least `x.0`.
pub open spec fn insert_desc<A>(x: (u64, A), s: Seq<(u64, A)>) -> Seq<(u64, A)> {
    s.insert(first_below(s, x.0, 0), x)
}

/// `s` ordered by score, highest first; items of equal score keep their relative order
/// (what a stable descending sort by score yields).
pub open spec fn sort_desc<A>(s: Seq<(u64, A)>) -> Seq<(u64, A)>
    decreases s.len(),
{
    if s.len() == 0 {
        Seq::empty()
    } else {
        insert_desc(s.last(), sort_desc(s.drop_last()))
    }
}

/// Scores never increase along `s`.
pub open spec fn sorted_desc<A>(s: Seq<(u64, A)>) -> bool {
    forall|i: int, j: int| 0 <= i < j < s.len() ==> s[i].0 >= s[j].0
}

pub proof fn lemma_first_below<A>(s: Seq<(u64, A)>, k: u64, i: int)
    requires
        0 <= i <= s.len(),
    ensures
        i <= first_below(s, k, i) <= s.len(),
        forall|j: int| i <= j < first_below(s, k, i) ==> s[j].0 >= k,
        first_below(s, k, i) < s.len() ==> s[first_below(s, k, i)].0 < k,
    decreases s.len() - i,
{
    if i < s.len() && s[i].0 >= k {
        lemma_first_below(s, k, i + 1);
    }
}

proof fn lemma_insert_desc<A>(x: (u64, A), s: Seq<(u64, A)>)
    requires
        sorted_desc(s),
    ensures
        sorted_desc(insert_desc(x, s)),
        insert_desc(x, s).to_multiset() == s.to_multiset().insert(x),
        insert_desc(x, s).len() == s.len() + 1,
{
    lemma_first_below(s, x.0, 0);
    let p = first_below(s, x.0, 0);
    let r = insert_desc(x, s);
    assert forall|i: int, j: int| 0 <= i < j < r.len() implies r[i].0 >= r[j].0 by {
        if j < p {
        } else if j == p {
        } else if i < p {
            assert(r[j] == s[j - 1]);
            assert(s[p].0 < x.0);
            assert(s[i].0 >= s[j - 1].0);
        } else if i == p {
            assert(s[p].0 >= s[j - 1].0);
        } else {
        }
    }
}

/// A stable descending sort orders by score and keeps exactly the same items.
pub proof fn lemma_sort_desc<A>(s: Seq<(u64, A)>)
    ensures
        sorted_desc(sort_desc(s)),
        sort_desc(s).to_multiset() == s.to_multiset(),
        sort_desc(s).len() == s.len(),
    decreases s.len(),
{
    broadcast use vstd::seq_lib::to_multiset_build;

    if s.len() == 0 {
        assert(sort_desc(s) =~= s);
    } else {
        lemma_sort_desc(s.drop_last());
        lemma_insert_desc(s.last(), sort_desc(s.drop_last()));
        assert(s.drop_last().push(s.last()) =~= s);
    }
}

/// Orders `v` by score, highest first, keeping the input order among equal scores.
pub fn sort_by_score_desc<A>(v: Vec<(u64, A)>) -> (r: Vec<(u64, A)>)
    ensures
        r@ == sort_desc(v@),
        sorted_desc(r@),
        r@.to_multiset() == v@.to_multiset(),
{
    let ghost orig = v@;
    let mut src = v;
    let mut out: Vec<(u64, A)> = Vec::new();
    let n = src.len();
    assert(orig.take(0) =~= Seq::<(u64, A)>::empty());
    assert(orig.skip(0) =~= orig);
    while src.len() > 0
        invariant
            n == orig.len(),
            src.len() <= n,
            src@ == orig.skip(n - src.len()),
            out@ == sort_desc(orig.take(n - src.len())),
        decreases src.len(),
    {
        let ghost i = n - src.len();
        let x = src.remove(0);
        assert(x == orig[i]);
        assert(src@ =~= orig.skip(i + 1));
        let mut p: usize = 0;
        while p < out.len() && out[p].0 >= x.0
            invariant
                p <= out.len(),
                first_below(out@, x.0, 0) == first_below(out@, x.0, p as int),
            decreases out.len() - p,
        {
            p = p + 1;
        }
        proof {
            lemma_first_below(out@, x.0, 0);
            assert(orig.take(i + 1).drop_last() =~= orig.take(i));
            assert(orig.take(i + 1).last() == x);
        }
        out.insert(p, x);
    }
    assert(orig.take(n as int) =~= orig);
    proof {
        lemma_sort_desc(orig);
    }
    out
}

} // verus!
