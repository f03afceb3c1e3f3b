//! Character-level string operations with specifications over `Seq<char>`.
use vstd::prelude::*;

verus! {

// ---------------------------------------------------------------------------
// std string functions that vstd leaves unspecified
// ---------------------------------------------------------------------------

/// What `str::to_lowercase` returns (full Unicode case mapping).
pub uninterp spec fn lowercase(s: Seq<char>) -> Seq<char>;

/// What `str::to_uppercase` returns (full Unicode case mapping).
pub uninterp spec fn uppercase(s: Seq<char>) -> Seq<char>;

/// What `char::is_whitespace` returns (Unicode `White_Space` property).
pub uninterp spec fn is_ws(c: char) -> bool;

/// Calls `String::push`: the string afterwards is the old one with `c` appended.
#[verifier::external_body]
pub(crate) fn push_char(s: &mut String, c: char)
    ensures
        final(s)@ == old(s)@.push(c),
{
    s.push(c);
}

/// Calls `str::to_lowercase`; its result is named `lowercase`.
#[verifier::external_body]
pub(crate) fn to_lower(s: &str) -> (r: String)
    ensures
        r@ == lowercase(s@),
{
    s.to_lowercase()
}

/// Calls `str::to_uppercase`; its result is named `uppercase`.
#[verifier::external_body]
pub(crate) fn to_upper(s: &str) -> (r: String)
    ensures
        r@ == uppercase(s@),
{
    s.to_uppercase()
}

/// Calls `char::is_whitespace`; its result is named `is_ws`.
#[verifier::external_body]
pub(crate) fn char_is_whitespace(c: char) -> (b: bool)
    ensures
        b == is_ws(c),
{
    c.is_whitespace()
}

// ---------------------------------------------------------------------------
// building strings
// ---------------------------------------------------------------------------

/// A fresh `String` holding the characters of `s`.
pub fn owned(s: &str) -> (r: String)
    ensures
        r@ == s@,
{
    String::from_str(s)
}

/// `a` followed by `b`.
pub fn concat2(a: &str, b: &str) -> (r: String)
    ensures
        r@ == a@ + b@,
{
    let mut r = String::from_str(a);
    r.append(b);
    r
}

/// `a`, `b` and `c` in a row.
pub fn concat3(a: &str, b: &str, c: &str) -> (r: String)
    ensures
        r@ == a@ + b@ + c@,
{
    let mut r = String::from_str(a);
    r.append(b);
    r.append(c);
    r
}

/// Whether two strings hold the same characters.
pub fn str_eq(a: &str, b: &str) -> (r: bool)
    ensures
        r == (a@ == b@),
{
    let n = a.unicode_len();
    if n != b.unicode_len() {
        return false;
    }
    let mut i: usize = 0;
    while i < n
        invariant
            n == a@.len(),
            n == b@.len(),
            i <= n,
            forall|j: int| 0 <= j < i ==> a@[j] == b@[j],
        decreases n - i,
    {
        if a.get_char(i) != b.get_char(i) {
            return false;
        }
        i = i + 1;
    }
    assert(a@ =~= b@);
    true
}

// ---------------------------------------------------------------------------
// searching
// ---------------------------------------------------------------------------

/// `p` occurs in `h` starting at position `i`.
pub open spec fn occurs_at(h: Seq<char>, p: Seq<char>, i: int) -> bool {
    0 <= i && i + p.len() <= h.len() && h.subrange(i, i + p.len()) == p
}

/// `p` occurs somewhere in `h`.
pub open spec fn contains_seq(h: Seq<char>, p: Seq<char>) -> bool {
    exists|i: int| occurs_at(h, p, i)
}

/// `h` begins with `p`.
pub open spec fn starts_with_seq(h: Seq<char>, p: Seq<char>) -> bool {
    p.len() <= h.len() && h.subrange(0, p.len() as int) == p
}

/// `h` ends with `p`.
pub open spec fn ends_with_seq(h: Seq<char>, p: Seq<char>) -> bool {
    p.len() <= h.len() && h.subrange(h.len() - p.len(), h.len() as int) == p
}

/// Whether `h` ends with `p`.
pub fn ends_with(h: &str, p: &str) -> (r: bool)
    ensures
        r == ends_with_seq(h@, p@),
{
    let hl = h.unicode_len();
    let pl = p.unicode_len();
    if pl > hl {
        return false;
    }
    matches_at(h, hl, p, pl, hl - pl)
}

/// Number of non-overlapping occurrences of a non-empty `p` in `h` at or after `i`,
/// taken leftmost first.
pub open spec fn count_from(h: Seq<char>, p: Seq<char>, i: int) -> nat
    decreases h.len() - i,
{
    if p.len() == 0 || i < 0 || i + p.len() > h.len() {
        0
    } else if h.subrange(i, i + p.len()) == p {
        1 + count_from(h, p, i + p.len())
    } else {
        count_from(h, p, i + 1)
    }
}

/// Number of non-overlapping occurrences of `p` in `h` (as `str::matches(..).count()`).
pub open spec fn count_matches_seq(h: Seq<char>, p: Seq<char>) -> nat {
    count_from(h, p, 0)
}

/// Whether `p` occurs in `h` at char position `i`.
pub fn matches_at(h: &str, hl: usize, p: &str, pl: usize, i: usize) -> (r: bool)
    requires
        hl == h@.len(),
        pl == p@.len(),
    ensures
        r == occurs_at(h@, p@, i as int),
{
    if i > hl || pl > hl - i {
        return false;
    }
    let mut k: usize = 0;
    while k < pl
        invariant
            hl == h@.len(),
            pl == p@.len(),
            i + pl <= hl,
            k <= pl,
            forall|j: int| 0 <= j < k ==> h@[i + j] == p@[j],
        decreases pl - k,
    {
        if h.get_char(i + k) != p.get_char(k) {
            assert(h@.subrange(i as int, i + pl)[k as int] != p@[k as int]);
            return false;
        }
        k = k + 1;
    }
    assert(h@.subrange(i as int, i + pl) =~= p@);
    true
}

/// Whether `h` begins with `p`.
pub fn starts_with(h: &str, p: &str) -> (r: bool)
    ensures
        r == starts_with_seq(h@, p@),
{
    let hl = h.unicode_len();
    let pl = p.unicode_len();
    matches_at(h, hl, p, pl, 0)
}

/// Whether `p` occurs in `h` (as `str::contains` with a string pattern).
pub fn contains(h: &str, p: &str) -> (r: bool)
    ensures
        r == contains_seq(h@, p@),
{
    let hl = h.unicode_len();
    let pl = p.unicode_len();
    let mut i: usize = 0;
    while i < hl
        invariant
            hl == h@.len(),
            pl == p@.len(),
            i <= hl,
            forall|j: int| 0 <= j < i ==> !occurs_at(h@, p@, j),
        decreases hl - i,
    {
        if matches_at(h, hl, p, pl, i) {
            return true;
        }
        i = i + 1;
    }
    if matches_at(h, hl, p, pl, hl) {
        return true;
    }
    assert forall|j: int| !occurs_at(h@, p@, j) by {
        if 0 <= j < i as int {
        }
    }
    false
}

/// Number of non-overlapping occurrences of a non-empty `p` in `h`.
pub fn count_matches(h: &str, p: &str) -> (r: usize)
    requires
        p@.len() > 0,
    ensures
        r == count_matches_seq(h@, p@),
{
    let hl = h.unicode_len();
    let pl = p.unicode_len();
    let mut i: usize = 0;
    let mut n: usize = 0;
    while pl <= hl - i
        invariant
            hl == h@.len(),
            pl == p@.len(),
            pl > 0,
            i <= hl,
            n <= i,
            n + count_from(h@, p@, i as int) == count_from(h@, p@, 0),
        decreases hl - i,
    {
        if matches_at(h, hl, p, pl, i) {
            n = n + 1;
            i = i + pl;
        } else {
            i = i + 1;
        }
    }
    n
}

/// `h[i..]` with every non-overlapping occurrence of a non-empty `p`, leftmost first,
/// replaced by `w`.
pub open spec fn replaced_from(h: Seq<char>, p: Seq<char>, w: Seq<char>, i: int) -> Seq<char>
    decreases h.len() - i,
{
    if i < 0 || i >= h.len() || p.len() == 0 {
        if 0 <= i < h.len() { h.subrange(i, h.len() as int) } else { Seq::empty() }
    } else if occurs_at(h, p, i) {
        w + replaced_from(h, p, w, i + p.len())
    } else {
        seq![h[i]] + replaced_from(h, p, w, i + 1)
    }
}

/// `h` with every occurrence of a non-empty `p` replaced by `w` (as `str::replace`).
pub fn replace_all(h: &str, p: &str, w: &str) -> (r: String)
    requires
        p@.len() > 0,
    ensures
        r@ == replaced_from(h@, p@, w@, 0),
{
    let hl = h.unicode_len();
    let pl = p.unicode_len();
    let mut out = String::new();
    let mut i: usize = 0;
    while i < hl
        invariant
            hl == h@.len(),
            pl == p@.len(),
            pl > 0,
            i <= hl,
            out@ + replaced_from(h@, p@, w@, i as int) == replaced_from(h@, p@, w@, 0),
        decreases hl - i,
    {
        if matches_at(h, hl, p, pl, i) {
            out.append(w);
            assert(out@ + replaced_from(h@, p@, w@, i + pl) =~= replaced_from(h@, p@, w@, 0));
            i = i + pl;
        } else {
            let c = h.get_char(i);
            push_char(&mut out, c);
            assert(out@ + replaced_from(h@, p@, w@, i + 1) =~= replaced_from(h@, p@, w@, 0));
            i = i + 1;
        }
    }
    assert(out@ =~= replaced_from(h@, p@, w@, 0));
    out
}

/// Total number of occurrences of the terms in `hay`.
pub open spec fn score_sum(hay: Seq<char>, terms: Seq<Seq<char>>) -> nat
    decreases terms.len(),
{
    if terms.len() == 0 {
        0
    } else {
        score_sum(hay, terms.drop_last()) + count_matches_seq(hay, terms.last())
    }
}

/// The score of `hay`, saturated to the `u64` range.
pub open spec fn score_of(hay: Seq<char>, terms: Seq<Seq<char>>) -> u64 {
    if score_sum(hay, terms) > u64::MAX { u64::MAX } else { score_sum(hay, terms) as u64 }
}

/// The saturated score of `hay` against `terms`.
pub fn score_terms(hay: &str, terms: &Vec<String>) -> (r: u64)
    requires
        forall|k: int| 0 <= k < terms@.len() ==> terms@[k]@.len() > 0,
    ensures
        r == score_of(hay@, views(terms@)),
{
    let mut total: u64 = 0;
    let mut i: usize = 0;
    while i < terms.len()
        invariant
            i <= terms.len(),
            forall|k: int| 0 <= k < terms@.len() ==> terms@[k]@.len() > 0,
            total == score_of(hay@, views(terms@).take(i as int)),
        decreases terms.len() - i,
    {
        let c = count_matches(hay, terms[i].as_str());
        assert(views(terms@).take(i + 1).drop_last() =~= views(terms@).take(i as int));
        assert(views(terms@).take(i + 1).last() == terms@[i as int]@);
        total = if c as u64 > u64::MAX - total { u64::MAX } else { total + c as u64 };
        i = i + 1;
    }
    assert(views(terms@).take(terms.len() as int) =~= views(terms@));
    total
}

/// `c` with an ASCII upper-case letter mapped to lower case.
pub open spec fn ascii_lower(c: char) -> char {
    if 'A' <= c <= 'Z' { ((c as u32) + 32) as char } else { c }
}

/// Whether `a` and `b` are equal up to ASCII case.
pub open spec fn eq_ascii_nocase(a: Seq<char>, b: Seq<char>) -> bool {
    a.len() == b.len() && forall|i: int| 0 <= i < a.len() ==> ascii_lower(#[trigger] a[i]) == ascii_lower(b[i])
}

fn lower_ascii_char(c: char) -> (r: char)
    ensures
        r == ascii_lower(c),
{
    if 'A' <= c && c <= 'Z' {
        ((c as u8) + 32) as char
    } else {
        c
    }
}

/// Whether `a` and `b` are equal up to ASCII case (as `str::eq_ignore_ascii_case`).
pub fn eq_ignore_ascii_case(a: &str, b: &str) -> (r: bool)
    ensures
        r == eq_ascii_nocase(a@, b@),
{
    let n = a.unicode_len();
    if n != b.unicode_len() {
        return false;
    }
    let mut i: usize = 0;
    while i < n
        invariant
            n == a@.len(),
            n == b@.len(),
            i <= n,
            forall|j: int| 0 <= j < i ==> ascii_lower(#[trigger] a@[j]) == ascii_lower(b@[j]),
        decreases n - i,
    {
        if lower_ascii_char(a.get_char(i)) != lower_ascii_char(b.get_char(i)) {
            return false;
        }
        i = i + 1;
    }
    true
}

/// Index of the first element of `s[i..]` satisfying `f`, or -1.
pub open spec fn first_from<T>(s: Seq<T>, f: spec_fn(T) -> bool, i: int) -> int
    decreases s.len() - i,
{
    if i < 0 || i >= s.len() {
        -1
    } else if f(s[i]) {
        i
    } else {
        first_from(s, f, i + 1)
    }
}

/// Index of the first element of `s` satisfying `f`, or -1.
pub open spec fn first_index<T>(s: Seq<T>, f: spec_fn(T) -> bool) -> int {
    first_from(s, f, 0)
}

/// The first match from `i` is at `k` when `k` matches and nothing between does.
pub proof fn lemma_first_at<T>(s: Seq<T>, f: spec_fn(T) -> bool, i: int, k: int)
    requires
        0 <= i <= k < s.len(),
        f(s[k]),
        forall|m: int| i <= m < k ==> !f(#[trigger] s[m]),
    ensures
        first_from(s, f, i) == k,
    decreases k - i,
{
    if i < k {
        lemma_first_at(s, f, i + 1, k);
    }
}

/// A match at `m` bounds the first match from `i` by `m`.
pub proof fn lemma_not_before<T>(s: Seq<T>, f: spec_fn(T) -> bool, i: int, m: int)
    requires
        0 <= i <= m < s.len(),
        f(s[m]),
    ensures
        first_from(s, f, i) != -1,
        first_from(s, f, i) <= m,
    decreases m - i,
{
    if i < m && !f(s[i]) {
        lemma_not_before(s, f, i + 1, m);
    }
}

/// The first index found is a valid index of an element satisfying `f`.
pub proof fn lemma_first_from<T>(s: Seq<T>, f: spec_fn(T) -> bool, i: int)
    requires
        0 <= i,
    ensures
        first_from(s, f, i) == -1 || (i <= first_from(s, f, i) < s.len() && f(
            s[first_from(s, f, i)],
        )),
    decreases s.len() - i,
{
    if i < s.len() && !f(s[i]) {
        lemma_first_from(s, f, i + 1);
    }
}

// ---------------------------------------------------------------------------
// splitting and trimming
// ---------------------------------------------------------------------------

/// The whitespace-separated words of `s[i..]`, given the word `cur` being read and the
/// words `acc` already complete.
pub open spec fn words_from(s: Seq<char>, i: int, cur: Seq<char>, acc: Seq<Seq<char>>) -> Seq<Seq<char>>
    decreases s.len() - i,
{
    if i >= s.len() {
        if cur.len() > 0 { acc.push(cur) } else { acc }
    } else if is_ws(s[i]) {
        words_from(s, i + 1, Seq::empty(), if cur.len() > 0 { acc.push(cur) } else { acc })
    } else {
        words_from(s, i + 1, cur.push(s[i]), acc)
    }
}

/// The maximal runs of non-whitespace characters of `s`, in order (as `str::split_whitespace`).
pub open spec fn words(s: Seq<char>) -> Seq<Seq<char>> {
    words_from(s, 0, Seq::empty(), Seq::empty())
}

/// The views of a vector of strings.
pub open spec fn views(v: Seq<String>) -> Seq<Seq<char>> {
    Seq::new(v.len(), |i: int| v[i]@)
}

pub proof fn lemma_words_nonempty(s: Seq<char>, i: int, cur: Seq<char>, acc: Seq<Seq<char>>)
    requires
        forall|k: int| 0 <= k < acc.len() ==> acc[k].len() > 0,
    ensures
        forall|k: int| 0 <= k < words_from(s, i, cur, acc).len() ==> words_from(s, i, cur, acc)[k].len() > 0,
    decreases s.len() - i,
{
    let acc2 = if cur.len() > 0 { acc.push(cur) } else { acc };
    assert forall|k: int| 0 <= k < acc2.len() implies acc2[k].len() > 0 by {
        if k < acc.len() {
            assert(acc2[k] == acc[k]);
        }
    }
    if i >= s.len() {
        assert(words_from(s, i, cur, acc) == acc2);
    } else if is_ws(s[i]) {
        assert(words_from(s, i, cur, acc) == words_from(s, i + 1, Seq::empty(), acc2));
        lemma_words_nonempty(s, i + 1, Seq::empty(), acc2);
    } else {
        assert(words_from(s, i, cur, acc) == words_from(s, i + 1, cur.push(s[i]), acc));
        lemma_words_nonempty(s, i + 1, cur.push(s[i]), acc);
    }
}

/// Splits `s` at whitespace, dropping empty pieces.
pub fn split_whitespace(s: &str) -> (r: Vec<String>)
    ensures
        views(r@) == words(s@),
        forall|k: int| 0 <= k < r@.len() ==> (#[trigger] r@[k])@.len() > 0,
{
    let n = s.unicode_len();
    let mut acc: Vec<String> = Vec::new();
    let mut cur = String::new();
    let mut i: usize = 0;
    assert(views(acc@) =~= Seq::<Seq<char>>::empty());
    assert(cur@ =~= Seq::<char>::empty());
    while i < n
        invariant
            n == s@.len(),
            i <= n,
            words(s@) == words_from(s@, i as int, cur@, views(acc@)),
        decreases n - i,
    {
        let c = s.get_char(i);
        if char_is_whitespace(c) {
            if cur.unicode_len() > 0 {
                let ghost old_acc = views(acc@);
                let done = cur;
                acc.push(done);
                assert(views(acc@) =~= old_acc.push(done@));
                cur = String::new();
            }
            assert(cur@ =~= Seq::<char>::empty());
        } else {
            push_char(&mut cur, c);
        }
        i = i + 1;
    }
    if cur.unicode_len() > 0 {
        let ghost old_acc = views(acc@);
        let done = cur;
        acc.push(done);
        assert(views(acc@) =~= old_acc.push(done@));
    }
    proof {
        lemma_words_nonempty(s@, 0, Seq::empty(), Seq::empty());
        assert forall|k: int| 0 <= k < acc@.len() implies (#[trigger] acc@[k])@.len() > 0 by {
            assert(views(acc@)[k] == acc@[k]@);
        }
    }
    acc
}

/// The character `c` as a predicate.
pub open spec fn is_char(c: char) -> spec_fn(char) -> bool {
    |x: char| x == c
}

/// Position of the first `c` in `s`, if any.
pub fn find_char(s: &str, c: char) -> (r: Option<usize>)
    ensures
        match r {
            Some(i) => i as int == first_index(s@, is_char(c)) && i < s@.len(),
            None => first_index(s@, is_char(c)) < 0,
        },
{
    let n = s.unicode_len();
    let ghost f = is_char(c);
    let mut i: usize = 0;
    while i < n
        invariant
            n == s@.len(),
            i <= n,
            f == is_char(c),
            first_from(s@, f, 0) == first_from(s@, f, i as int),
        decreases n - i,
    {
        if s.get_char(i) == c {
            assert(f(s@[i as int]));
            return Some(i);
        }
        i = i + 1;
    }
    None
}

/// The pieces of `s[i..]` between occurrences of `c`, given the piece `cur` being read
/// and the pieces `acc` already complete.
pub open spec fn pieces_from(s: Seq<char>, c: char, i: int, cur: Seq<char>, acc: Seq<Seq<char>>) -> Seq<Seq<char>>
    decreases s.len() - i,
{
    if i >= s.len() {
        acc.push(cur)
    } else if s[i] == c {
        pieces_from(s, c, i + 1, Seq::empty(), acc.push(cur))
    } else {
        pieces_from(s, c, i + 1, cur.push(s[i]), acc)
    }
}

/// The pieces of `s` between occurrences of `c`, empty pieces included (as
/// `str::split` with a character).
pub open spec fn pieces(s: Seq<char>, c: char) -> Seq<Seq<char>> {
    pieces_from(s, c, 0, Seq::empty(), Seq::empty())
}

/// Splits `s` at every `c`.
pub fn split_char(s: &str, c: char) -> (r: Vec<String>)
    ensures
        views(r@) == pieces(s@, c),
{
    let n = s.unicode_len();
    let mut acc: Vec<String> = Vec::new();
    let mut cur = String::new();
    let mut i: usize = 0;
    assert(views(acc@) =~= Seq::<Seq<char>>::empty());
    assert(cur@ =~= Seq::<char>::empty());
    while i < n
        invariant
            n == s@.len(),
            i <= n,
            pieces(s@, c) == pieces_from(s@, c, i as int, cur@, views(acc@)),
        decreases n - i,
    {
        let d = s.get_char(i);
        if d == c {
            let ghost old_acc = views(acc@);
            let done = cur;
            acc.push(done);
            assert(views(acc@) =~= old_acc.push(done@));
            cur = String::new();
            assert(cur@ =~= Seq::<char>::empty());
        } else {
            push_char(&mut cur, d);
        }
        i = i + 1;
    }
    let ghost old_acc = views(acc@);
    let done = cur;
    acc.push(done);
    assert(views(acc@) =~= old_acc.push(done@));
    acc
}

/// Index of the first non-whitespace character of `s` at or after `i` (or `s.len()`).
pub open spec fn first_non_ws(s: Seq<char>, i: int) -> int
    decreases s.len() - i,
{
    if i >= s.len() || !is_ws(s[i]) { i } else { first_non_ws(s, i + 1) }
}

/// One past the last non-whitespace character of `s` before `j` (or `lo`).
pub open spec fn last_non_ws(s: Seq<char>, lo: int, j: int) -> int
    decreases j - lo,
{
    if j <= lo || !is_ws(s[j - 1]) { j } else { last_non_ws(s, lo, j - 1) }
}

/// `s` with leading and trailing whitespace removed (as `str::trim`).
pub open spec fn trimmed(s: Seq<char>) -> Seq<char> {
    let lo = first_non_ws(s, 0);
    s.subrange(lo, last_non_ws(s, lo, s.len() as int))
}

/// `s` without leading and trailing whitespace.
pub fn trim(s: &str) -> (r: String)
    ensures
        r@ == trimmed(s@),
{
    let n = s.unicode_len();
    let mut lo: usize = 0;
    while lo < n && char_is_whitespace(s.get_char(lo))
        invariant
            n == s@.len(),
            lo <= n,
            first_non_ws(s@, 0) == first_non_ws(s@, lo as int),
        decreases n - lo,
    {
        lo = lo + 1;
    }
    let mut hi: usize = n;
    while hi > lo && char_is_whitespace(s.get_char(hi - 1))
        invariant
            n == s@.len(),
            lo <= hi <= n,
            lo == first_non_ws(s@, 0),
            last_non_ws(s@, lo as int, n as int) == last_non_ws(s@, lo as int, hi as int),
        decreases hi - lo,
    {
        hi = hi - 1;
    }
    owned(s.substring_char(lo, hi))
}

/// `s` with every trailing `c` removed (as `str::trim_end_matches` with a char).
pub open spec fn trim_end_char(s: Seq<char>, c: char) -> Seq<char>
    decreases s.len(),
{
    if s.len() > 0 && s.last() == c { trim_end_char(s.drop_last(), c) } else { s }
}

/// `s` with every trailing `c` removed.
pub fn trim_end_matching(s: &str, c: char) -> (r: String)
    ensures
        r@ == trim_end_char(s@, c),
{
    let n = s.unicode_len();
    let mut hi: usize = n;
    assert(s@.subrange(0, n as int) =~= s@);
    while hi > 0 && s.get_char(hi - 1) == c
        invariant
            n == s@.len(),
            hi <= n,
            trim_end_char(s@, c) == trim_end_char(s@.subrange(0, hi as int), c),
        decreases hi,
    {
        assert(s@.subrange(0, hi as int).drop_last() =~= s@.subrange(0, hi - 1));
        hi = hi - 1;
    }
    assert(hi > 0 ==> s@.subrange(0, hi as int).last() == s@[hi - 1]);
    owned(s.substring_char(0, hi))
}

// ---------------------------------------------------------------------------
// joining
// ---------------------------------------------------------------------------

/// The pieces of `v` with `sep` between each neighbouring pair.
pub open spec fn join_seq(v: Seq<Seq<char>>, sep: Seq<char>) -> Seq<char>
    decreases v.len(),
{
    if v.len() == 0 {
        Seq::empty()
    } else if v.len() == 1 {
        v[0]
    } else {
        join_seq(v.drop_last(), sep) + sep + v.last()
    }
}

/// Joins the strings of `v` with `sep` (as `[String]::join`).
pub fn join(v: &Vec<String>, sep: &str) -> (r: String)
    ensures
        r@ == join_seq(views(v@), sep@),
{
    let mut r = String::new();
    let mut i: usize = 0;
    while i < v.len()
        invariant
            i <= v.len(),
            r@ == join_seq(views(v@).take(i as int), sep@),
        decreases v.len() - i,
    {
        if i > 0 {
            r.append(sep);
        }
        r.append(v[i].as_str());
        assert(views(v@).take(i + 1).drop_last() =~= views(v@).take(i as int));
        i = i + 1;
    }
    assert(views(v@).take(v.len() as int) =~= views(v@));
    r
}

// ---------------------------------------------------------------------------
// numbers
// ---------------------------------------------------------------------------

/// The decimal digit for `d < 10`.
pub open spec fn digit_char(d: nat) -> char {
    if d < 10 { ((48 + d) as u8) as char } else { '?' }
}

/// Decimal rendering of `n`, without leading zeros (as `Display` for unsigned integers).
pub open spec fn decimal(n: nat) -> Seq<char>
    decreases n,
{
    if n < 10 { seq![digit_char(n)] } else { decimal(n / 10).push(digit_char(n % 10)) }
}

fn digit(d: u64) -> (c: char)
    requires
        d < 10,
    ensures
        c == digit_char(d as nat),
{
    if d == 0 { '0' } else if d == 1 { '1' } else if d == 2 { '2' } else if d == 3 { '3' }
    else if d == 4 { '4' } else if d == 5 { '5' } else if d == 6 { '6' } else if d == 7 { '7' }
    else if d == 8 { '8' } else { '9' }
}

/// Decimal rendering of `n`.
pub fn decimal_string(n: u64) -> (r: String)
    ensures
        r@ == decimal(n as nat),
    decreases n,
{
    if n < 10 {
        let mut r = String::new();
        push_char(&mut r, digit(n));
        assert(r@ =~= seq![digit_char(n as nat)]);
        r
    } else {
        let mut r = decimal_string(n / 10);
        push_char(&mut r, digit(n % 10));
        r
    }
}

/// Decimal rendering of a signed number, with a leading `-` when negative.
pub open spec fn signed_decimal(n: int) -> Seq<char> {
    if n < 0 { "-"@ + decimal((-n) as nat) } else { decimal(n as nat) }
}

/// Decimal rendering of `n` (as `Display` for `i32`).
pub fn i32_string(n: i32) -> (r: String)
    ensures
        r@ == signed_decimal(n as int),
{
    if n < 0 {
        let m: u64 = (0i64 - (n as i64)) as u64;
        let d = decimal_string(m);
        concat2("-", d.as_str())
    } else {
        decimal_string(n as u64)
    }
}

// ---------------------------------------------------------------------------
// facts about matching
// ---------------------------------------------------------------------------

/// `str::to_lowercase` lower-cases the two sides of a space independently: every
/// character maps on its own except a capital sigma, whose form depends on the
/// letters around it, and that context never reaches across a space.
pub open spec fn lowercase_splits_at_spaces() -> bool {
    forall|a: Seq<char>, b: Seq<char>| #[trigger] lowercase(a + " "@ + b) == lowercase(a) + " "@ + lowercase(b)
}

/// Every word is non-empty.
pub proof fn lemma_words_are_nonempty(s: Seq<char>)
    ensures
        forall|k: int| 0 <= k < words(s).len() ==> (#[trigger] words(s)[k]).len() > 0,
{
    lemma_words_nonempty(s, 0, Seq::empty(), Seq::empty());
}

proof fn lemma_count_from_positive(h: Seq<char>, p: Seq<char>, i: int, j: int)
    requires
        p.len() > 0,
        0 <= i <= j,
        occurs_at(h, p, j),
    ensures
        count_from(h, p, i) > 0,
    decreases j - i,
{
    if h.subrange(i, i + p.len()) != p {
        lemma_count_from_positive(h, p, i + 1, j);
    }
}

/// A text that contains a non-empty term scores above zero against any terms that
/// include it.
pub proof fn lemma_score_positive(hay: Seq<char>, terms: Seq<Seq<char>>, k: int)
    requires
        0 <= k < terms.len(),
        terms[k].len() > 0,
        contains_seq(hay, terms[k]),
    ensures
        score_of(hay, terms) > 0,
    decreases terms.len(),
{
    if k == terms.len() - 1 {
        let j = choose|j: int| occurs_at(hay, terms[k], j);
        lemma_count_from_positive(hay, terms[k], 0, j);
    } else {
        assert(terms.drop_last()[k] == terms[k]);
        lemma_score_positive(hay, terms.drop_last(), k);
    }
}

/// A term found in `b` is found in any text that contains `b`.
pub proof fn lemma_contains_within(a: Seq<char>, b: Seq<char>, c: Seq<char>, p: Seq<char>)
    requires
        contains_seq(b, p),
    ensures
        contains_seq(a + b + c, p),
{
    let j = choose|j: int| occurs_at(b, p, j);
    let h = a + b + c;
    assert(h.subrange(a.len() + j, a.len() + j + p.len()) =~= b.subrange(j, j + p.len()));
    assert(occurs_at(h, p, a.len() + j));
}

/// A term found in one of the joined parts is found in their join.
pub proof fn lemma_join_contains(v: Seq<Seq<char>>, sep: Seq<char>, j: int, p: Seq<char>)
    requires
        0 <= j < v.len(),
        contains_seq(v[j], p),
    ensures
        contains_seq(join_seq(v, sep), p),
    decreases v.len(),
{
    if v.len() == 1 {
    } else if j == v.len() - 1 {
        lemma_contains_within(join_seq(v.drop_last(), sep) + sep, v.last(), Seq::empty(), p);
        assert(join_seq(v.drop_last(), sep) + sep + v.last() + Seq::<char>::empty() =~= join_seq(v, sep));
    } else {
        assert(v.drop_last()[j] == v[j]);
        lemma_join_contains(v.drop_last(), sep, j, p);
        lemma_contains_within(Seq::empty(), join_seq(v.drop_last(), sep), sep + v.last(), p);
        assert(Seq::<char>::empty() + join_seq(v.drop_last(), sep) + (sep + v.last()) =~= join_seq(v, sep));
    }
}

/// With lower-casing split at spaces, lower-casing space-joined parts (at least one)
/// joins the lower-cased parts.
pub proof fn lemma_lowercase_join(v: Seq<Seq<char>>)
    requires
        lowercase_splits_at_spaces(),
        v.len() > 0,
    ensures
        lowercase(join_seq(v, " "@)) == join_seq(v.map_values(|x: Seq<char>| lowercase(x)), " "@),
    decreases v.len(),
{
    let lv = v.map_values(|x: Seq<char>| lowercase(x));
    if v.len() == 1 {
    } else {
        lemma_lowercase_join(v.drop_last());
        assert(v.drop_last().map_values(|x: Seq<char>| lowercase(x)) =~= lv.drop_last());
        assert(lowercase(join_seq(v.drop_last(), " "@) + " "@ + v.last()) == lowercase(join_seq(v.drop_last(), " "@))
            + " "@ + lowercase(v.last()));
    }
}

} // verus!
