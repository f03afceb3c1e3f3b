//! Lexicographic order on strings (as `Ord for str`: code point by code point, a
//! proper prefix first), sorting and de-duplication.
use vstd::prelude::*;
use crate::text::views;

verus! {

broadcast use vstd::seq_lib::to_multiset_insert;

/// `a` sorts strictly before `b`.
pub open spec fn lex_lt(a: Seq<char>, b: Seq<char>) -> bool
    decreases a.len(),
{
    if b.len() == 0 {
        false
    } else if a.len() == 0 {
        true
    } else if a[0] != b[0] {
        (a[0] as int) < (b[0] as int)
    } else {
        lex_lt(a.drop_first(), b.drop_first())
    }
}

/// `a` sorts before or equals `b`.
pub open spec fn lex_le(a: Seq<char>, b: Seq<char>) -> bool {
    a == b || lex_lt(a, b)
}

/// The order is strict and total.
pub proof fn lemma_lex_total(a: Seq<char>, b: Seq<char>)
    ensures
        !(lex_lt(a, b) && lex_lt(b, a)),
        !lex_lt(a, a),
        a != b ==> (lex_lt(a, b) || lex_lt(b, a)),
    decreases a.len(),
{
    if a.len() > 0 && b.len() > 0 && a[0] != b[0] {
        assert((a[0] as int) != (b[0] as int));
    }
    if a.len() > 0 && b.len() > 0 && a[0] == b[0] {
        lemma_lex_total(a.drop_first(), b.drop_first());
        if a != b {
            if a.drop_first() =~= b.drop_first() {
                assert forall|k: int| 0 <= k < a.len() implies a[k] == b[k] by {
                    if k > 0 {
                        assert(a[k] == a.drop_first()[k - 1]);
                        assert(b[k] == b.drop_first()[k - 1]);
                    }
                }
                assert(a =~= b);
            }
        }
    }
    if a.len() > 0 {
        lemma_lex_total(a.drop_first(), a.drop_first());
    }
    if a.len() == 0 && b.len() == 0 {
        assert(a =~= b);
    }
}

/// The order is transitive.
pub proof fn lemma_lex_trans(a: Seq<char>, b: Seq<char>, c: Seq<char>)
    requires
        lex_lt(a, b),
        lex_lt(b, c),
    ensures
        lex_lt(a, c),
    decreases a.len(),
{
    if a.len() > 0 && a[0] == b[0] && b[0] == c[0] {
        lemma_lex_trans(a.drop_first(), b.drop_first(), c.drop_first());
    }
}

/// Compares two strings.
pub fn str_lt(a: &str, b: &str) -> (r: bool)
    ensures
        r == lex_lt(a@, b@),
{
    let n = a.unicode_len();
    let m = b.unicode_len();
    let mut i: usize = 0;
    assert(a@.skip(0) =~= a@);
    assert(b@.skip(0) =~= b@);
    while i < n && i < m && a.get_char(i) == b.get_char(i)
        invariant
            n == a@.len(),
            m == b@.len(),
            i <= n,
            i <= m,
            lex_lt(a@, b@) == lex_lt(a@.skip(i as int), b@.skip(i as int)),
        decreases n - i,
    {
        assert(a@.skip(i + 1) =~= a@.skip(i as int).drop_first());
        assert(b@.skip(i + 1) =~= b@.skip(i as int).drop_first());
        i = i + 1;
    }
    if i == m {
        false
    } else if i == n {
        true
    } else {
        (a.get_char(i) as u32) < (b.get_char(i) as u32)
    }
}

/// The first position at or after `i` holding a string after `x` (or `s.len()`).
pub open spec fn first_after(s: Seq<Seq<char>>, x: Seq<char>, i: int) -> int
    decreases s.len() - i,
{
    if i >= s.len() || lex_lt(x, s[i]) { i } else { first_after(s, x, i + 1) }
}

/// `s` with `x` placed after every string not after it.
pub open spec fn insert_lex(x: Seq<char>, s: Seq<Seq<char>>) -> Seq<Seq<char>> {
    s.insert(first_after(s, x, 0), x)
}

/// `s` in ascending order.
pub open spec fn sort_lex(s: Seq<Seq<char>>) -> Seq<Seq<char>>
    decreases s.len(),
{
    if s.len() == 0 {
        Seq::empty()
    } else {
        insert_lex(s.last(), sort_lex(s.drop_last()))
    }
}

/// `s` is in ascending order.
pub open spec fn sorted_lex(s: Seq<Seq<char>>) -> bool {
    forall|i: int, j: int| 0 <= i < j < s.len() ==> lex_le(s[i], s[j])
}

proof fn lemma_first_after(s: Seq<Seq<char>>, x: Seq<char>, i: int)
    requires
        0 <= i <= s.len(),
    ensures
        i <= first_after(s, x, i) <= s.len(),
        forall|j: int| i <= j < first_after(s, x, i) ==> !lex_lt(x, #[trigger] s[j]),
        first_after(s, x, i) < s.len() ==> lex_lt(x, s[first_after(s, x, i)]),
    decreases s.len() - i,
{
    if i < s.len() && !lex_lt(x, s[i]) {
        lemma_first_after(s, x, i + 1);
    }
}

proof fn lemma_insert_lex(x: Seq<char>, s: Seq<Seq<char>>)
    requires
        sorted_lex(s),
    ensures
        sorted_lex(insert_lex(x, s)),
        insert_lex(x, s).to_multiset() == s.to_multiset().insert(x),
        insert_lex(x, s).len() == s.len() + 1,
{
    lemma_first_after(s, x, 0);
    let p = first_after(s, x, 0);
    let t = insert_lex(x, s);
    assert forall|i: int, j: int| 0 <= i < j < t.len() implies lex_le(t[i], t[j]) by {
        if i < p && j == p {
            lemma_lex_total(s[i], x);
        } else if i == p && j > p {
            let y = s[j - 1];
            if p < s.len() {
                if j - 1 > p {
                    assert(lex_le(s[p], y));
                    if s[p] != y {
                        lemma_lex_trans(x, s[p], y);
                    }
                }
            }
        } else if i < p && j > p {
            assert(lex_le(s[i], s[j - 1]));
        } else if i > p {
            assert(lex_le(s[i - 1], s[j - 1]));
        }
    }
}

/// Sorting yields an ascending permutation.
pub proof fn lemma_sort_lex(s: Seq<Seq<char>>)
    ensures
        sorted_lex(sort_lex(s)),
        sort_lex(s).to_multiset() == s.to_multiset(),
        sort_lex(s).len() == s.len(),
    decreases s.len(),
{
    broadcast use vstd::seq_lib::to_multiset_build;

    if s.len() == 0 {
        assert(sort_lex(s) =~= s);
    } else {
        lemma_sort_lex(s.drop_last());
        lemma_insert_lex(s.last(), sort_lex(s.drop_last()));
        assert(s.drop_last().push(s.last()) =~= s);
    }
}

/// The strings of `v` in ascending order.
pub fn sort_strings(v: Vec<String>) -> (r: Vec<String>)
    ensures
        views(r@) == sort_lex(views(v@)),
        sorted_lex(views(r@)),
        views(r@).to_multiset() == views(v@).to_multiset(),
{
    let ghost orig = views(v@);
    let mut src = v;
    let mut out: Vec<String> = Vec::new();
    let n = src.len();
    assert(views(src@) =~= orig.skip(0));
    assert(views(out@) =~= sort_lex(orig.take(0)));
    while src.len() > 0
        invariant
            n == orig.len(),
            src.len() <= n,
            views(src@) == orig.skip(n - src.len()),
            views(out@) == sort_lex(orig.take(n - src.len())),
        decreases src.len(),
    {
        let ghost i = n - src.len();
        let ghost before = views(src@);
        let ghost src_before = src@;
        let x = src.remove(0);
        assert(x@ == before[0]);
        assert(src@ =~= src_before.subrange(1, src_before.len() as int));
        assert forall|k: int| 0 <= k < views(src@).len() implies views(src@)[k] == orig.skip(i + 1)[k] by {
            assert(views(src@)[k] == src@[k]@);
            assert(src@[k] == src_before[k + 1]);
            assert(views(src_before)[k + 1] == src_before[k + 1]@);
        }
        assert(views(src@) =~= orig.skip(i + 1));
        let mut p: usize = 0;
        while p < out.len() && !str_lt(x.as_str(), out[p].as_str())
            invariant
                p <= out.len(),
                first_after(views(out@), x@, 0) == first_after(views(out@), x@, p as int),
            decreases out.len() - p,
        {
            assert(views(out@)[p as int] == out@[p as int]@);
            p = p + 1;
        }
        proof {
            if p < out.len() {
                assert(views(out@)[p as int] == out@[p as int]@);
            }
            lemma_first_after(views(out@), x@, 0);
            assert(orig.take(i + 1).drop_last() =~= orig.take(i));
            assert(orig.take(i + 1).last() == x@);
        }
        let ghost old_out = views(out@);
        out.insert(p, x);
        assert(views(out@) =~= old_out.insert(p as int, x@));
    }
    assert(orig.take(n as int) =~= orig);
    proof {
        lemma_sort_lex(orig);
    }
    out
}

/// `s` without the later of any two equal neighbours.
pub open spec fn dedup_adjacent(s: Seq<Seq<char>>) -> Seq<Seq<char>>
    decreases s.len(),
{
    if s.len() == 0 {
        Seq::empty()
    } else {
        let d = dedup_adjacent(s.drop_last());
        if d.len() > 0 && d.last() == s.last() { d } else { d.push(s.last()) }
    }
}

/// Drops each string equal to the one before it (as `Vec::dedup`).
pub fn dedup_strings(v: Vec<String>) -> (r: Vec<String>)
    ensures
        views(r@) == dedup_adjacent(views(v@)),
{
    let mut out: Vec<String> = Vec::new();
    let mut i: usize = 0;
    while i < v.len()
        invariant
            i <= v@.len(),
            views(out@) == dedup_adjacent(views(v@).take(i as int)),
        decreases v@.len() - i,
    {
        assert(views(v@).take(i + 1).drop_last() =~= views(v@).take(i as int));
        assert(views(v@).take(i + 1).last() == v@[i as int]@);
        let n = out.len();
        if n > 0 && crate::text::str_eq(out[n - 1].as_str(), v[i].as_str()) {
            assert(views(out@).last() == out@[n - 1]@);
        } else {
            if n > 0 {
                assert(views(out@).last() == out@[n - 1]@);
            }
            let ghost old_out = views(out@);
            out.push(v[i].clone());
            assert(views(out@) =~= old_out.push(v@[i as int]@));
        }
        i = i + 1;
    }
    assert(views(v@).take(v@.len() as int) =~= views(v@));
    out
}

} // verus!
