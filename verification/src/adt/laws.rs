//! What holds of the ADT layer across inputs.
use vstd::prelude::*;
use crate::adt::base64::{b64_char, b64_value, base64, base64_decode, decode_groups, full_groups, quad, tail_chars, unquad};
use crate::adt::error::{error_code, transient_code, AdtError};
use crate::adt::mock::{
    cds_candidates, fm_sources, kind_wanted, lookup_result, or_empty, search_result, search_terms,
    source_candidates, source_hay, source_hit, MockAdtClient,
};
use crate::adt::types::{object_path, AbapObjectKind, AdtSearchHit, AdtSearchRequest, CdsView, ProgramSource};
use crate::adt::http::kind_of_token;
use crate::adt::xml::{filled, scan, slot_of, usage_of};
use crate::rank::{lemma_sort_desc, sort_desc};
use crate::text::{
    contains_seq, ends_with_seq, lemma_contains_within, lemma_score_positive, lemma_words_are_nonempty, lowercase,
    lowercase_splits_at_spaces, score_of, starts_with_seq, uppercase,
};

verus! {

broadcast use vstd::seq_lib::group_to_multiset_ensures;

/// Exactly timeouts, unreachable destinations, CSRF refreshes, rate limits and
/// internal failures are worth retrying.
pub proof fn law_transient_errors(e: AdtError)
    ensures
        transient_code(error_code(e)) <==> (e is Timeout || e is DestinationDown || e is CsrfRefresh
            || e is RateLimited || e is Internal),
{
}

/// Looking an object up ignores the case of its name: names that agree in upper
/// case find the same object, or both find none.
pub proof fn law_lookup_ignores_case(
    list: Seq<ProgramSource>,
    a: Seq<char>,
    b: Seq<char>,
    kind: AbapObjectKind,
    ra: Result<ProgramSource, AdtError>,
    rb: Result<ProgramSource, AdtError>,
)
    requires
        uppercase(a) == uppercase(b),
        lookup_result(list, a, kind, ra),
        lookup_result(list, b, kind, rb),
    ensures
        ra is Ok <==> rb is Ok,
        ra is Ok ==> ra == rb,
{
}

proof fn lemma_source_candidates_wanted(
    list: Seq<ProgramSource>,
    with_package: bool,
    terms: Seq<Seq<char>>,
    want: Option<AbapObjectKind>,
)
    ensures
        forall|i: int| 0 <= i < source_candidates(list, with_package, terms, want).len() ==> kind_wanted(
            want,
            (#[trigger] source_candidates(list, with_package, terms, want)[i]).1.kind,
        ),
    decreases list.len(),
{
    if list.len() > 0 {
        lemma_source_candidates_wanted(list.drop_last(), with_package, terms, want);
    }
}

proof fn lemma_cds_candidates_wanted(
    list: Seq<crate::adt::types::CdsView>,
    terms: Seq<Seq<char>>,
    want: Option<AbapObjectKind>,
)
    ensures
        forall|i: int| 0 <= i < cds_candidates(list, terms, want).len() ==> kind_wanted(
            want,
            (#[trigger] cds_candidates(list, terms, want)[i]).1.kind,
        ),
    decreases list.len(),
{
    if list.len() > 0 {
        lemma_cds_candidates_wanted(list.drop_last(), terms, want);
    }
}

/// A search restricted to a kind returns only objects of that kind.
pub proof fn law_search_respects_kind(c: MockAdtClient, request: AdtSearchRequest)
    ensures
        forall|i: int| 0 <= i < search_result(c, request).len() ==> kind_wanted(
            request.kind,
            (#[trigger] search_result(c, request)[i]).kind,
        ),
{
    let terms = search_terms(request.query@);
    let want = request.kind;
    let a = source_candidates(c.program_list(), true, terms, want);
    let b = source_candidates(c.class_list(), true, terms, want);
    let d = source_candidates(c.interface_list(), false, terms, want);
    let f = source_candidates(fm_sources(c.function_module_list()), false, terms, want);
    let g = cds_candidates(c.cds_list(), terms, want);
    let all = a + b + d + f + g;
    lemma_source_candidates_wanted(c.program_list(), true, terms, want);
    lemma_source_candidates_wanted(c.class_list(), true, terms, want);
    lemma_source_candidates_wanted(c.interface_list(), false, terms, want);
    lemma_source_candidates_wanted(fm_sources(c.function_module_list()), false, terms, want);
    lemma_cds_candidates_wanted(c.cds_list(), terms, want);
    assert forall|i: int| 0 <= i < all.len() implies kind_wanted(want, (#[trigger] all[i]).1.kind) by {
        if i < a.len() {
            assert(all[i] == a[i]);
        } else if i < a.len() + b.len() {
            assert(all[i] == b[i - a.len()]);
        } else if i < a.len() + b.len() + d.len() {
            assert(all[i] == d[i - a.len() - b.len()]);
        } else if i < a.len() + b.len() + d.len() + f.len() {
            assert(all[i] == f[i - a.len() - b.len() - d.len()]);
        } else {
            assert(all[i] == g[i - a.len() - b.len() - d.len() - f.len()]);
        }
    }
    let ranked = sort_desc(all);
    lemma_sort_desc(all);
    assert forall|i: int| 0 <= i < ranked.len() implies kind_wanted(want, (#[trigger] ranked[i]).1.kind) by {
        assert(ranked.contains(ranked[i]));
        assert(ranked.to_multiset().count(ranked[i]) > 0);
        assert(all.to_multiset().count(ranked[i]) > 0);
        assert(all.contains(ranked[i]));
        let w = choose|w: int| 0 <= w < all.len() && all[w] == ranked[i];
        assert(kind_wanted(want, all[w].1.kind));
    }
}

/// A search returns at most `max(max_results, 1)` hits.
pub proof fn law_search_bounded(c: MockAdtClient, request: AdtSearchRequest)
    ensures
        search_result(c, request).len() <= if request.max_results > 1 { request.max_results as int } else { 1 },
{
}

proof fn lemma_full_groups_len(b: Seq<u8>, k: nat)
    ensures
        full_groups(b, k).len() == 4 * k,
    decreases k,
{
    if k > 0 {
        lemma_full_groups_len(b, (k - 1) as nat);
    }
}

/// Base64 turns every started group of three bytes into four characters.
pub proof fn law_base64_length(b: Seq<u8>)
    ensures
        base64(b).len() == 4 * ((b.len() + 2) / 3),
{
    lemma_full_groups_len(b, b.len() / 3);
    assert(tail_chars(b).len() == if b.len() % 3 == 0 { 0int } else { 4int });
}

/// A character of the Base64 alphabet: `A`-`Z`, `a`-`z`, `0`-`9`, `+` and `/`.
pub open spec fn in_alphabet(c: char) -> bool {
    let n = c as int;
    (65 <= n <= 90) || (97 <= n <= 122) || (48 <= n <= 57) || c == '+' || c == '/'
}

proof fn lemma_b64_char(v: u8)
    ensures
        in_alphabet(b64_char(v)),
{
    if v < 26 {
        assert(((65 + v) as char) as int == 65 + v);
    } else if v < 52 {
        assert(((97 + (v - 26)) as char) as int == 97 + (v - 26));
    } else if v < 62 {
        assert(((48 + (v - 52)) as char) as int == 48 + (v - 52));
    }
}

proof fn lemma_quad_alphabet(b: Seq<u8>, j: int)
    ensures
        quad(b, j).len() == 4,
        forall|i: int| 0 <= i < 4 ==> in_alphabet(#[trigger] quad(b, j)[i]),
{
    let (b1, b2, b3) = (b[j], b[j + 1], b[j + 2]);
    lemma_b64_char(b1 >> 2);
    lemma_b64_char(((b1 & 3u8) << 4u8) | (b2 >> 4));
    lemma_b64_char(((b2 & 15u8) << 2u8) | (b3 >> 6));
    lemma_b64_char(b3 & 63u8);
}

proof fn lemma_full_groups_alphabet(b: Seq<u8>, k: nat)
    ensures
        forall|i: int| 0 <= i < full_groups(b, k).len() ==> in_alphabet(#[trigger] full_groups(b, k)[i]),
    decreases k,
{
    if k > 0 {
        let k1 = (k - 1) as nat;
        lemma_full_groups_alphabet(b, k1);
        lemma_full_groups_len(b, k1);
        lemma_quad_alphabet(b, 3 * k1 as int);
        let f = full_groups(b, k);
        assert(f == full_groups(b, k1) + quad(b, 3 * k1 as int));
        assert forall|i: int| 0 <= i < f.len() implies in_alphabet(#[trigger] f[i]) by {
            if i < 4 * k1 {
                assert(f[i] == full_groups(b, k1)[i]);
            } else {
                assert(f[i] == quad(b, 3 * k1 as int)[i - 4 * k1]);
            }
        }
    }
}

/// Base64 pads with `=`: the encoding ends in exactly `(3 - n % 3) % 3` of them
/// for `n` bytes, and every character before them is of the alphabet.
pub proof fn law_base64_padding(b: Seq<u8>)
    ensures
        ({
            let r = base64(b);
            let p = (3 - b.len() % 3) % 3;
            &&& forall|i: int| 0 <= i < r.len() - p ==> in_alphabet(#[trigger] r[i])
            &&& forall|i: int| r.len() - p <= i < r.len() ==> #[trigger] r[i] == '='
        }),
{
    let k = b.len() / 3;
    let r = base64(b);
    let p = (3 - b.len() % 3) % 3;
    lemma_full_groups_len(b, k);
    lemma_full_groups_alphabet(b, k);
    law_base64_length(b);
    let f = full_groups(b, k);
    let t = tail_chars(b);
    assert(r == f + t);
    let i0: int = 3 * k as int;
    if b.len() - i0 == 1 {
        lemma_b64_char(b[i0] >> 2);
        lemma_b64_char((b[i0] & 3u8) << 4u8);
    } else if b.len() - i0 == 2 {
        lemma_b64_char(b[i0] >> 2);
        lemma_b64_char(((b[i0] & 3u8) << 4u8) | (b[i0 + 1] >> 4));
        lemma_b64_char((b[i0 + 1] & 15u8) << 2u8);
    }
    assert(t.len() == if p == 0 { 0int } else { 4int });
    assert forall|i: int| 0 <= i < r.len() - p implies in_alphabet(#[trigger] r[i]) by {
        if i < f.len() {
            assert(r[i] == f[i]);
        } else {
            assert(r[i] == t[i - f.len()]);
        }
    }
    assert forall|i: int| r.len() - p <= i < r.len() implies #[trigger] r[i] == '=' by {
        assert(r[i] == t[i - f.len()]);
    }
}

proof fn lemma_b64_char_injective(v: u8, w: u8)
    requires
        v < 64,
        w < 64,
        b64_char(v) == b64_char(w),
    ensures
        v == w,
{
    lemma_b64_char(v);
    let cv = b64_char(v) as int;
    let cw = b64_char(w) as int;
    assert('+' as int == 43);
    assert('/' as int == 47);
    if v < 26 {
        assert(cv == 65 + v);
    } else if v < 52 {
        assert(cv == 97 + (v - 26));
    } else if v < 62 {
        assert(cv == 48 + (v - 52));
    }
    if w < 26 {
        assert(cw == 65 + w);
    } else if w < 52 {
        assert(cw == 97 + (w - 26));
    } else if w < 62 {
        assert(cw == 48 + (w - 52));
    }
}

proof fn lemma_full_groups_index(b: Seq<u8>, k: nat, g: int, m: int)
    requires
        0 <= g < k,
        0 <= m < 4,
    ensures
        full_groups(b, k)[4 * g + m] == quad(b, 3 * g)[m],
    decreases k,
{
    let k1 = (k - 1) as nat;
    lemma_full_groups_len(b, k1);
    assert(full_groups(b, k) == full_groups(b, k1) + quad(b, 3 * k1 as int));
    if g < k1 {
        lemma_full_groups_index(b, k1, g, m);
    }
}

proof fn lemma_group_bytes(a1: u8, a2: u8, a3: u8, c1: u8, c2: u8, c3: u8)
    requires
        a1 >> 2 == c1 >> 2,
        ((a1 & 3u8) << 4u8) | (a2 >> 4) == ((c1 & 3u8) << 4u8) | (c2 >> 4),
        ((a2 & 15u8) << 2u8) | (a3 >> 6) == ((c2 & 15u8) << 2u8) | (c3 >> 6),
        a3 & 63u8 == c3 & 63u8,
    ensures
        a1 == c1 && a2 == c2 && a3 == c3,
{
    assert(a1 == c1 && a2 == c2 && a3 == c3) by (bit_vector)
        requires
            a1 >> 2 == c1 >> 2,
            ((a1 & 3u8) << 4u8) | (a2 >> 4) == ((c1 & 3u8) << 4u8) | (c2 >> 4),
            ((a2 & 15u8) << 2u8) | (a3 >> 6) == ((c2 & 15u8) << 2u8) | (c3 >> 6),
            a3 & 63u8 == c3 & 63u8,
    ;
}

proof fn lemma_sextets(a1: u8, a2: u8, a3: u8)
    ensures
        a1 >> 2 < 64,
        ((a1 & 3u8) << 4u8) | (a2 >> 4) < 64,
        ((a2 & 15u8) << 2u8) | (a3 >> 6) < 64,
        a3 & 63u8 < 64,
        (a1 & 3u8) << 4u8 < 64,
        (a2 & 15u8) << 2u8 < 64,
{
    assert(a1 >> 2 < 64) by (bit_vector);
    assert(((a1 & 3u8) << 4u8) | (a2 >> 4) < 64) by (bit_vector);
    assert(((a2 & 15u8) << 2u8) | (a3 >> 6) < 64) by (bit_vector);
    assert(a3 & 63u8 < 64) by (bit_vector);
    assert((a1 & 3u8) << 4u8 < 64) by (bit_vector);
    assert((a2 & 15u8) << 2u8 < 64) by (bit_vector);
}

proof fn lemma_tail_bytes(a1: u8, a2: u8, c1: u8, c2: u8)
    ensures
        (a1 >> 2 == c1 >> 2 && (a1 & 3u8) << 4u8 == (c1 & 3u8) << 4u8) ==> a1 == c1,
        (a1 >> 2 == c1 >> 2 && ((a1 & 3u8) << 4u8) | (a2 >> 4) == ((c1 & 3u8) << 4u8) | (c2 >> 4)
            && (a2 & 15u8) << 2u8 == (c2 & 15u8) << 2u8) ==> (a1 == c1 && a2 == c2),
{
    assert((a1 >> 2 == c1 >> 2 && (a1 & 3u8) << 4u8 == (c1 & 3u8) << 4u8) ==> a1 == c1) by (bit_vector);
    assert((a1 >> 2 == c1 >> 2 && ((a1 & 3u8) << 4u8) | (a2 >> 4) == ((c1 & 3u8) << 4u8) | (c2 >> 4)
        && (a2 & 15u8) << 2u8 == (c2 & 15u8) << 2u8) ==> (a1 == c1 && a2 == c2)) by (bit_vector);
}

/// Base64 loses nothing: two byte strings with the same encoding are the same,
/// so the encoding decodes back to the bytes it was made from.
pub proof fn law_base64_injective(a: Seq<u8>, b: Seq<u8>)
    requires
        base64(a) == base64(b),
    ensures
        a == b,
{
    let r = base64(a);
    law_base64_length(a);
    law_base64_length(b);
    law_base64_padding(a);
    law_base64_padding(b);
    let pa = (3 - a.len() % 3) % 3;
    let pb = (3 - b.len() % 3) % 3;
    assert(!in_alphabet('='));
    if pa < pb {
        let i = r.len() - pb;
        assert(r[i] == '=');
        assert(in_alphabet(r[i]));
    } else if pb < pa {
        let i = r.len() - pa;
        assert(r[i] == '=');
        assert(in_alphabet(r[i]));
    }
    assert(pa == pb);
    assert((a.len() + 2) / 3 == (b.len() + 2) / 3);
    assert(a.len() == b.len());
    let n = a.len();
    let k = n / 3;
    lemma_full_groups_len(a, k);
    lemma_full_groups_len(b, k);
    let fa = full_groups(a, k);
    let fb = full_groups(b, k);
    assert(r == fa + tail_chars(a));
    assert(r == fb + tail_chars(b));
    assert forall|j: int| 0 <= j < n implies a[j] == b[j] by {
        if j < 3 * k {
            let g = j / 3;
            assert(0 <= g < k);
            lemma_full_groups_index(a, k, g, 0);
            lemma_full_groups_index(a, k, g, 1);
            lemma_full_groups_index(a, k, g, 2);
            lemma_full_groups_index(a, k, g, 3);
            lemma_full_groups_index(b, k, g, 0);
            lemma_full_groups_index(b, k, g, 1);
            lemma_full_groups_index(b, k, g, 2);
            lemma_full_groups_index(b, k, g, 3);
            let q = 3 * g;
            assert(r[4 * g] == fa[4 * g] && r[4 * g] == fb[4 * g]);
            assert(r[4 * g + 1] == fa[4 * g + 1] && r[4 * g + 1] == fb[4 * g + 1]);
            assert(r[4 * g + 2] == fa[4 * g + 2] && r[4 * g + 2] == fb[4 * g + 2]);
            assert(r[4 * g + 3] == fa[4 * g + 3] && r[4 * g + 3] == fb[4 * g + 3]);
            let (a1, a2, a3) = (a[q], a[q + 1], a[q + 2]);
            let (c1, c2, c3) = (b[q], b[q + 1], b[q + 2]);
            lemma_sextets(a1, a2, a3);
            lemma_sextets(c1, c2, c3);
            lemma_b64_char_injective(a1 >> 2, c1 >> 2);
            lemma_b64_char_injective(((a1 & 3u8) << 4u8) | (a2 >> 4), ((c1 & 3u8) << 4u8) | (c2 >> 4));
            lemma_b64_char_injective(((a2 & 15u8) << 2u8) | (a3 >> 6), ((c2 & 15u8) << 2u8) | (c3 >> 6));
            lemma_b64_char_injective(a3 & 63u8, c3 & 63u8);
            lemma_group_bytes(a1, a2, a3, c1, c2, c3);
            assert(j == q || j == q + 1 || j == q + 2);
        } else {
            let i0 = 3 * k as int;
            let f = 4 * k as int;
            assert(r[f] == tail_chars(a)[0] && r[f] == tail_chars(b)[0]);
            assert(r[f + 1] == tail_chars(a)[1] && r[f + 1] == tail_chars(b)[1]);
            assert(r[f + 2] == tail_chars(a)[2] && r[f + 2] == tail_chars(b)[2]);
            let a1 = a[i0];
            let c1 = b[i0];
            if n - i0 == 1 {
                lemma_sextets(a1, 0, 0);
                lemma_sextets(c1, 0, 0);
                lemma_b64_char_injective(a1 >> 2, c1 >> 2);
                lemma_b64_char_injective((a1 & 3u8) << 4u8, (c1 & 3u8) << 4u8);
                lemma_tail_bytes(a1, 0, c1, 0);
            } else {
                let a2 = a[i0 + 1];
                let c2 = b[i0 + 1];
                lemma_sextets(a1, a2, 0);
                lemma_sextets(c1, c2, 0);
                lemma_b64_char_injective(a1 >> 2, c1 >> 2);
                lemma_b64_char_injective(((a1 & 3u8) << 4u8) | (a2 >> 4), ((c1 & 3u8) << 4u8) | (c2 >> 4));
                lemma_b64_char_injective((a2 & 15u8) << 2u8, (c2 & 15u8) << 2u8);
                lemma_tail_bytes(a1, a2, c1, c2);
            }
        }
    }
    assert(a =~= b);
}

proof fn lemma_b64_value(v: u8)
    requires
        v < 64,
    ensures
        b64_value(b64_char(v)) == v,
{
    lemma_b64_char(v);
    let c = b64_char(v) as int;
    assert('+' as int == 43);
    assert('/' as int == 47);
    if v < 26 {
        assert(c == 65 + v);
    } else if v < 52 {
        assert(c == 97 + (v - 26));
    } else if v < 62 {
        assert(c == 48 + (v - 52));
    }
}

proof fn lemma_regroup(b1: u8, b2: u8, b3: u8)
    ensures
        (((b1 >> 2) << 2u8) | ((((b1 & 3u8) << 4u8) | (b2 >> 4)) >> 4u8)) == b1,
        ((((((b1 & 3u8) << 4u8) | (b2 >> 4)) & 15u8) << 4u8) | ((((b2 & 15u8) << 2u8) | (b3 >> 6)) >> 2u8)) == b2,
        ((((((b2 & 15u8) << 2u8) | (b3 >> 6)) & 3u8) << 6u8) | (b3 & 63u8)) == b3,
        (((b1 >> 2) << 2u8) | (((b1 & 3u8) << 4u8) >> 4u8)) == b1,
        ((((((b1 & 3u8) << 4u8) | (b2 >> 4)) & 15u8) << 4u8) | (((b2 & 15u8) << 2u8) >> 2u8)) == b2,
{
    assert((((b1 >> 2) << 2u8) | ((((b1 & 3u8) << 4u8) | (b2 >> 4)) >> 4u8)) == b1) by (bit_vector);
    assert(((((((b1 & 3u8) << 4u8) | (b2 >> 4)) & 15u8) << 4u8) | ((((b2 & 15u8) << 2u8) | (b3 >> 6)) >> 2u8))
        == b2) by (bit_vector);
    assert(((((((b2 & 15u8) << 2u8) | (b3 >> 6)) & 3u8) << 6u8) | (b3 & 63u8)) == b3) by (bit_vector);
    assert((((b1 >> 2) << 2u8) | (((b1 & 3u8) << 4u8) >> 4u8)) == b1) by (bit_vector);
    assert(((((((b1 & 3u8) << 4u8) | (b2 >> 4)) & 15u8) << 4u8) | (((b2 & 15u8) << 2u8) >> 2u8)) == b2)
        by (bit_vector);
}

/// Decoding the characters of a complete group gives back its three bytes.
proof fn lemma_unquad_quad(b: Seq<u8>, j: int, r: Seq<char>, at: int)
    requires
        0 <= j,
        j + 3 <= b.len(),
        0 <= at,
        at + 4 <= r.len(),
        forall|m: int| 0 <= m < 4 ==> r[at + m] == #[trigger] quad(b, j)[m],
    ensures
        unquad(r, at) == b.subrange(j, j + 3),
{
    let (b1, b2, b3) = (b[j], b[j + 1], b[j + 2]);
    lemma_sextets(b1, b2, b3);
    assert(r[at] == quad(b, j)[0]);
    assert(r[at + 1] == quad(b, j)[1]);
    assert(r[at + 2] == quad(b, j)[2]);
    assert(r[at + 3] == quad(b, j)[3]);
    lemma_b64_value(b1 >> 2);
    lemma_b64_value(((b1 & 3u8) << 4u8) | (b2 >> 4));
    lemma_b64_value(((b2 & 15u8) << 2u8) | (b3 >> 6));
    lemma_b64_value(b3 & 63u8);
    lemma_regroup(b1, b2, b3);
    assert(unquad(r, at) =~= b.subrange(j, j + 3));
}

proof fn lemma_decode_groups(b: Seq<u8>, r: Seq<char>, k: nat)
    requires
        3 * k <= b.len(),
        4 * k <= r.len(),
        forall|i: int| 0 <= i < 4 * k ==> r[i] == #[trigger] full_groups(b, k)[i],
    ensures
        decode_groups(r, k) == b.take(3 * k as int),
    decreases k,
{
    if k > 0 {
        let k1 = (k - 1) as nat;
        lemma_full_groups_len(b, k1);
        assert(full_groups(b, k) == full_groups(b, k1) + quad(b, 3 * k1 as int));
        assert forall|i: int| 0 <= i < 4 * k1 implies r[i] == #[trigger] full_groups(b, k1)[i] by {
            assert(full_groups(b, k)[i] == full_groups(b, k1)[i]);
        }
        lemma_decode_groups(b, r, k1);
        assert forall|m: int| 0 <= m < 4 implies r[4 * k1 + m] == #[trigger] quad(b, 3 * k1 as int)[m] by {
            assert(full_groups(b, k)[4 * k1 + m] == quad(b, 3 * k1 as int)[m]);
        }
        lemma_unquad_quad(b, 3 * k1 as int, r, 4 * k1 as int);
        assert(b.take(3 * k as int) =~= b.take(3 * k1 as int) + b.subrange(3 * k1 as int, 3 * k1 as int + 3));
    }
}

/// Decoding a Base64 encoding gives back the bytes it was made from.
pub proof fn law_base64_round_trip(b: Seq<u8>)
    ensures
        base64_decode(base64(b)) == b,
{
    let r = base64(b);
    let n = b.len();
    let k = n / 3;
    law_base64_length(b);
    law_base64_padding(b);
    lemma_full_groups_len(b, k);
    let f = full_groups(b, k);
    let t = tail_chars(b);
    assert(r == f + t);
    assert(!in_alphabet('='));
    assert forall|i: int| 0 <= i < 4 * k implies r[i] == #[trigger] full_groups(b, k)[i] by {
        assert(r[i] == f[i]);
    }
    lemma_decode_groups(b, r, k);
    let i0 = 3 * k as int;
    if n - i0 == 0 {
        if k > 0 {
            assert(in_alphabet(r[r.len() - 1]));
            assert(in_alphabet(r[r.len() - 2]));
        }
        assert(r.len() / 4 == k);
        assert(b.take(3 * k as int) =~= b);
    } else {
        let k1 = k;
        assert(r.len() / 4 == k + 1);
        assert(r[4 * k as int] == t[0] && r[4 * k as int + 1] == t[1] && r[4 * k as int + 2] == t[2] && r[4 * k as int + 3] == t[3]);
        let b1 = b[i0];
        if n - i0 == 1 {
            assert(r[r.len() - 2] == '=');
            lemma_sextets(b1, 0, 0);
            lemma_b64_value(b1 >> 2);
            lemma_b64_value((b1 & 3u8) << 4u8);
            lemma_regroup(b1, 0, 0);
            assert(unquad(r, 4 * k as int).take(1) =~= b.subrange(i0, i0 + 1));
            assert(b =~= b.take(3 * k as int) + b.subrange(i0, i0 + 1));
        } else {
            let b2 = b[i0 + 1];
            assert(in_alphabet(r[r.len() - 2]));
            assert(r[r.len() - 1] == '=');
            lemma_sextets(b1, b2, 0);
            lemma_b64_value(b1 >> 2);
            lemma_b64_value(((b1 & 3u8) << 4u8) | (b2 >> 4));
            lemma_b64_value((b2 & 15u8) << 2u8);
            lemma_regroup(b1, b2, 0);
            assert(unquad(r, 4 * k as int).take(2) =~= b.subrange(i0, i0 + 2));
            assert(b =~= b.take(3 * k as int) + b.subrange(i0, i0 + 2));
        }
    }
}

/// An object of a wanted kind with a positive score is among the candidates, with
/// that score.
proof fn lemma_candidate_listed(
    list: Seq<ProgramSource>,
    with_package: bool,
    terms: Seq<Seq<char>>,
    want: Option<AbapObjectKind>,
    i: int,
)
    requires
        0 <= i < list.len(),
        kind_wanted(want, list[i].kind),
        score_of(lowercase(source_hay(list[i], with_package)), terms) > 0,
    ensures
        source_candidates(list, with_package, terms, want).contains(
            (
                score_of(lowercase(source_hay(list[i], with_package)), terms),
                source_hit(list[i], score_of(lowercase(source_hay(list[i], with_package)), terms)),
            ),
        ),
    decreases list.len(),
{
    let s = score_of(lowercase(source_hay(list[i], with_package)), terms);
    let pair = (s, source_hit(list[i], s));
    let rest = source_candidates(list.drop_last(), with_package, terms, want);
    if i == list.len() - 1 {
        assert(source_candidates(list, with_package, terms, want) == rest.push(pair));
        assert(rest.push(pair)[rest.len() as int] == pair);
    } else {
        assert(list.drop_last()[i] == list[i]);
        lemma_candidate_listed(list.drop_last(), with_package, terms, want, i);
        let w = choose|w: int| 0 <= w < rest.len() && rest[w] == pair;
        let all = source_candidates(list, with_package, terms, want);
        assert(all == rest || all == rest.push((
            score_of(lowercase(source_hay(list.last(), with_package)), terms),
            source_hit(list.last(), score_of(lowercase(source_hay(list.last(), with_package)), terms)),
        )));
        assert(all[w] == pair);
    }
}

/// An object's text, as the search sees it: its lower-cased name or description,
/// and for programs and classes also its lower-cased package, contains `t`.
pub open spec fn text_matches(p: ProgramSource, with_package: bool, t: Seq<char>) -> bool {
    ||| contains_seq(lowercase(p.name@), t)
    ||| contains_seq(lowercase(or_empty(p.description)), t)
    ||| with_package && contains_seq(lowercase(or_empty(p.package)), t)
}

/// The text an object is scored on, lower-cased, contains its lower-cased name,
/// description and (with the package) package.
proof fn lemma_hay_has_parts(p: ProgramSource, with_package: bool, t: Seq<char>)
    requires
        lowercase_splits_at_spaces(),
        text_matches(p, with_package, t),
    ensures
        contains_seq(lowercase(source_hay(p, with_package)), t),
{
    let n = p.name@;
    let d = or_empty(p.description);
    let k = or_empty(p.package);
    let h = lowercase(source_hay(p, with_package));
    assert(lowercase(n + " "@ + d) == lowercase(n) + " "@ + lowercase(d));
    if with_package {
        assert(lowercase(n + " "@ + d + " "@ + k) == lowercase(n + " "@ + d) + " "@ + lowercase(k));
        assert(h =~= lowercase(n) + (" "@ + lowercase(d) + " "@ + lowercase(k)));
        assert(h =~= lowercase(n) + " "@ + lowercase(d) + (" "@ + lowercase(k)));
        assert(h =~= (lowercase(n) + " "@ + lowercase(d) + " "@) + lowercase(k));
        if contains_seq(lowercase(n), t) {
            lemma_contains_within(Seq::empty(), lowercase(n), " "@ + lowercase(d) + " "@ + lowercase(k), t);
            assert(Seq::<char>::empty() + lowercase(n) + (" "@ + lowercase(d) + " "@ + lowercase(k)) =~= h);
        } else if contains_seq(lowercase(d), t) {
            lemma_contains_within(lowercase(n) + " "@, lowercase(d), " "@ + lowercase(k), t);
        } else {
            lemma_contains_within(lowercase(n) + " "@ + lowercase(d) + " "@, lowercase(k), Seq::empty(), t);
            assert(lowercase(n) + " "@ + lowercase(d) + " "@ + lowercase(k) + Seq::<char>::empty() =~= h);
        }
    } else {
        if contains_seq(lowercase(n), t) {
            lemma_contains_within(Seq::empty(), lowercase(n), " "@ + lowercase(d), t);
            assert(Seq::<char>::empty() + lowercase(n) + (" "@ + lowercase(d)) =~= h);
        } else {
            lemma_contains_within(lowercase(n) + " "@, lowercase(d), Seq::empty(), t);
            assert(lowercase(n) + " "@ + lowercase(d) + Seq::<char>::empty() =~= h);
        }
    }
}

/// A search finds objects by their names, descriptions and packages: every program,
/// class, interface or function module of a wanted kind whose lower-cased name or
/// description (or, for programs and classes, package) contains a word of the
/// query is among the hits with a positive score, unless the hits already fill
/// `max(max_results, 1)`. (It rests on `str::to_lowercase` treating the two sides
/// of a space independently.)
pub proof fn law_search_finds_by_text(
    c: MockAdtClient,
    request: AdtSearchRequest,
    p: ProgramSource,
    t: Seq<char>,
)
    requires
        lowercase_splits_at_spaces(),
        c.program_list().contains(p) || c.class_list().contains(p) || c.interface_list().contains(p)
            || fm_sources(c.function_module_list()).contains(p),
        kind_wanted(request.kind, p.kind),
        search_terms(request.query@).contains(t),
        text_matches(p, c.program_list().contains(p) || c.class_list().contains(p), t),
    ensures
        search_result(c, request).len() == (if request.max_results > 1 { request.max_results as int } else { 1 })
            || exists|h: AdtSearchHit| #[trigger] search_result(c, request).contains(h) && h.name == p.name && h.kind
            == p.kind && h.score > 0,
{
    broadcast use vstd::seq_lib::lemma_multiset_commutative;
    let terms = search_terms(request.query@);
    let want = request.kind;
    lemma_words_are_nonempty(lowercase(request.query@));
    let ti = choose|ti: int| 0 <= ti < terms.len() && terms[ti] == t;
    let a = source_candidates(c.program_list(), true, terms, want);
    let b = source_candidates(c.class_list(), true, terms, want);
    let d = source_candidates(c.interface_list(), false, terms, want);
    let f = source_candidates(fm_sources(c.function_module_list()), false, terms, want);
    let g = cds_candidates(c.cds_list(), terms, want);
    let all = a + b + d + f + g;
    let wp = c.program_list().contains(p) || c.class_list().contains(p);
    let list = if c.program_list().contains(p) {
        c.program_list()
    } else if c.class_list().contains(p) {
        c.class_list()
    } else if c.interface_list().contains(p) {
        c.interface_list()
    } else {
        fm_sources(c.function_module_list())
    };
    let part = source_candidates(list, wp, terms, want);
    let i = choose|i: int| 0 <= i < list.len() && list[i] == p;
    lemma_hay_has_parts(p, wp, t);
    assert(contains_seq(lowercase(source_hay(p, wp)), terms[ti]));
    lemma_score_positive(lowercase(source_hay(p, wp)), terms, ti);
    let sc = score_of(lowercase(source_hay(p, wp)), terms);
    let pair = (sc, source_hit(p, sc));
    lemma_candidate_listed(list, wp, terms, want, i);
    assert(part.to_multiset().count(pair) > 0);
    assert(all.to_multiset() =~= a.to_multiset().add(b.to_multiset()).add(d.to_multiset()).add(f.to_multiset()).add(
        g.to_multiset(),
    ));
    assert(all.to_multiset().count(pair) > 0);
    lemma_sort_desc(all);
    let ranked = sort_desc(all);
    assert(ranked.to_multiset().count(pair) > 0);
    assert(ranked.contains(pair));
    let cap: int = if request.max_results > 1 { request.max_results as int } else { 1 };
    if ranked.len() <= cap {
        let m = choose|m: int| 0 <= m < ranked.len() && ranked[m] == pair;
        let r = search_result(c, request);
        assert(ranked.take(ranked.len() as int) =~= ranked);
        assert(r[m] == source_hit(p, sc));
        assert(r.contains(source_hit(p, sc)));
    }
}

proof fn lemma_cds_listed(list: Seq<CdsView>, terms: Seq<Seq<char>>, want: Option<AbapObjectKind>, i: int)
    requires
        0 <= i < list.len(),
        kind_wanted(want, AbapObjectKind::CdsView),
        score_of(lowercase(list[i].name@ + " "@ + list[i].root_entity@), terms) > 0,
    ensures
        exists|h: AdtSearchHit| #[trigger] cds_candidates(list, terms, want).contains(
            (score_of(lowercase(list[i].name@ + " "@ + list[i].root_entity@), terms), h),
        ) && h.name == list[i].name && h.kind == AbapObjectKind::CdsView && h.score > 0,
    decreases list.len(),
{
    let s = score_of(lowercase(list[i].name@ + " "@ + list[i].root_entity@), terms);
    let rest = cds_candidates(list.drop_last(), terms, want);
    let all = cds_candidates(list, terms, want);
    if i == list.len() - 1 {
        let h = AdtSearchHit { name: list[i].name, kind: AbapObjectKind::CdsView, description: None, package: None, score: s };
        assert(all == rest.push((s, h)));
        assert(all[rest.len() as int] == (s, h));
        assert(all.contains((s, h)));
    } else {
        assert(list.drop_last()[i] == list[i]);
        lemma_cds_listed(list.drop_last(), terms, want, i);
        let h = choose|h: AdtSearchHit| #[trigger] rest.contains((s, h)) && h.name == list[i].name && h.kind
            == AbapObjectKind::CdsView && h.score > 0;
        let w = choose|w: int| 0 <= w < rest.len() && rest[w] == (s, h);
        assert(all[w] == (s, h));
        assert(all.contains((s, h)));
    }
}

/// A search finds CDS views by their names and root entities: every CDS view, when
/// CDS views are wanted, whose lower-cased name or root entity contains a word of
/// the query is among the hits with a positive score, unless the hits already fill
/// `max(max_results, 1)`. (It rests on `str::to_lowercase` treating the two sides
/// of a space independently.)
pub proof fn law_search_finds_cds_views(c: MockAdtClient, request: AdtSearchRequest, v: CdsView, t: Seq<char>)
    requires
        lowercase_splits_at_spaces(),
        c.cds_list().contains(v),
        kind_wanted(request.kind, AbapObjectKind::CdsView),
        search_terms(request.query@).contains(t),
        contains_seq(lowercase(v.name@), t) || contains_seq(lowercase(v.root_entity@), t),
    ensures
        search_result(c, request).len() == (if request.max_results > 1 { request.max_results as int } else { 1 })
            || exists|h: AdtSearchHit| #[trigger] search_result(c, request).contains(h) && h.name == v.name && h.kind
            == AbapObjectKind::CdsView && h.score > 0,
{
    broadcast use vstd::seq_lib::lemma_multiset_commutative;
    let terms = search_terms(request.query@);
    let want = request.kind;
    lemma_words_are_nonempty(lowercase(request.query@));
    let ti = choose|ti: int| 0 <= ti < terms.len() && terms[ti] == t;
    let hay = lowercase(v.name@ + " "@ + v.root_entity@);
    assert(hay == lowercase(v.name@) + " "@ + lowercase(v.root_entity@));
    if contains_seq(lowercase(v.name@), t) {
        lemma_contains_within(Seq::empty(), lowercase(v.name@), " "@ + lowercase(v.root_entity@), t);
        assert(Seq::<char>::empty() + lowercase(v.name@) + (" "@ + lowercase(v.root_entity@)) =~= hay);
    } else {
        lemma_contains_within(lowercase(v.name@) + " "@, lowercase(v.root_entity@), Seq::empty(), t);
        assert(lowercase(v.name@) + " "@ + lowercase(v.root_entity@) + Seq::<char>::empty() =~= hay);
    }
    lemma_score_positive(hay, terms, ti);
    let i = choose|i: int| 0 <= i < c.cds_list().len() && c.cds_list()[i] == v;
    lemma_cds_listed(c.cds_list(), terms, want, i);
    let sc = score_of(hay, terms);
    let h = choose|h: AdtSearchHit| #[trigger] cds_candidates(c.cds_list(), terms, want).contains((sc, h)) && h.name
        == v.name && h.kind == AbapObjectKind::CdsView && h.score > 0;
    let pair = (sc, h);
    let a = source_candidates(c.program_list(), true, terms, want);
    let b = source_candidates(c.class_list(), true, terms, want);
    let d = source_candidates(c.interface_list(), false, terms, want);
    let f = source_candidates(fm_sources(c.function_module_list()), false, terms, want);
    let g = cds_candidates(c.cds_list(), terms, want);
    let all = a + b + d + f + g;
    assert(g.to_multiset().count(pair) > 0);
    assert(all.to_multiset() =~= a.to_multiset().add(b.to_multiset()).add(d.to_multiset()).add(f.to_multiset()).add(
        g.to_multiset(),
    ));
    lemma_sort_desc(all);
    let ranked = sort_desc(all);
    assert(ranked.to_multiset().count(pair) > 0);
    assert(ranked.contains(pair));
    let cap: int = if request.max_results > 1 { request.max_results as int } else { 1 };
    if ranked.len() <= cap {
        let m = choose|m: int| 0 <= m < ranked.len() && ranked[m] == pair;
        let r = search_result(c, request);
        assert(ranked.take(ranked.len() as int) =~= ranked);
        assert(r[m] == h);
        assert(r.contains(h));
    }
}

/// `v` is the value of the last attribute whose key passes `keep`, or empty when no
/// key does.
pub open spec fn last_value_where(
    attrs: Seq<(Seq<char>, Seq<char>)>,
    keep: spec_fn(Seq<char>) -> bool,
    v: Seq<char>,
) -> bool {
    ||| exists|i: int|
        0 <= i < attrs.len() && keep(#[trigger] attrs[i].0) && attrs[i].1 == v && forall|j: int|
            i < j < attrs.len() ==> !keep(#[trigger] attrs[j].0)
    ||| v.len() == 0 && forall|j: int| 0 <= j < attrs.len() ==> !keep(#[trigger] attrs[j].0)
}

/// A key that names an object: it contains `name`.
pub open spec fn name_key(k: Seq<char>) -> bool {
    contains_seq(k, "name"@)
}

/// A key that gives an object's type: it contains `type` and not `name`.
pub open spec fn type_key(k: Seq<char>) -> bool {
    contains_seq(k, "type"@) && !contains_seq(k, "name"@)
}

/// A key that gives an object's URI: it contains `uri`, and neither `name` nor `type`.
pub open spec fn uri_key(k: Seq<char>) -> bool {
    contains_seq(k, "uri"@) && !contains_seq(k, "name"@) && !contains_seq(k, "type"@)
}

proof fn lemma_scan_last(attrs: Seq<(Seq<char>, Seq<char>)>, pats: Seq<Seq<char>>, js: int)
    requires
        0 <= js < pats.len(),
    ensures
        scan(attrs, pats).len() == pats.len(),
        last_value_where(attrs, |k: Seq<char>| slot_of(k, pats) == js, filled(scan(attrs, pats)[js])),
    decreases attrs.len(),
{
    let keep = |k: Seq<char>| slot_of(k, pats) == js;
    if attrs.len() == 0 {
        assert(scan(attrs, pats)[js] is None);
    } else {
        let prev = attrs.drop_last();
        lemma_scan_last(prev, pats, js);
        crate::text::lemma_first_from(pats, |p: Seq<char>| contains_seq(attrs.last().0, p), 0);
        let n = attrs.len() - 1;
        if keep(attrs.last().0) {
            assert(filled(scan(attrs, pats)[js]) == attrs.last().1);
            assert(keep(attrs[n].0));
        } else {
            assert(scan(attrs, pats)[js] == scan(prev, pats)[js]);
            let v = filled(scan(attrs, pats)[js]);
            if exists|i: int|
                0 <= i < prev.len() && keep(#[trigger] prev[i].0) && prev[i].1 == v && forall|j: int|
                    i < j < prev.len() ==> !keep(#[trigger] prev[j].0) {
                let i = choose|i: int|
                    0 <= i < prev.len() && keep(#[trigger] prev[i].0) && prev[i].1 == v && forall|j: int|
                        i < j < prev.len() ==> !keep(#[trigger] prev[j].0);
                assert(attrs[i] == prev[i]);
                assert forall|j: int| i < j < attrs.len() implies !keep(#[trigger] attrs[j].0) by {
                    if j < n {
                        assert(attrs[j] == prev[j]);
                    }
                }
            } else {
                assert forall|j: int| 0 <= j < attrs.len() implies !keep(#[trigger] attrs[j].0) by {
                    if j < n {
                        assert(attrs[j] == prev[j]);
                    }
                }
            }
        }
    }
}

proof fn lemma_usage_slots(k: Seq<char>)
    ensures
        (slot_of(k, seq!["name"@, "type"@, "uri"@]) == 0) == name_key(k),
        (slot_of(k, seq!["name"@, "type"@, "uri"@]) == 1) == type_key(k),
        (slot_of(k, seq!["name"@, "type"@, "uri"@]) == 2) == uri_key(k),
{
    let pats = seq!["name"@, "type"@, "uri"@];
    let f = |p: Seq<char>| contains_seq(k, p);
    assert(pats[0] == "name"@ && pats[1] == "type"@ && pats[2] == "uri"@);
    reveal_with_fuel(crate::text::first_from, 4);
}

/// A where-used hit comes from its tag's attributes alone: its object is the value
/// of the last attribute naming an object, its kind is read from the last attribute
/// giving a type, and its location is the value of the last attribute giving a URI
/// (empty without one); so the location never depends on the name attribute.
pub proof fn law_usage_from_attributes(tag: Seq<char>, attrs: Seq<(Seq<char>, Seq<char>)>)
    ensures
        usage_of(tag, attrs) matches Some((object, kind, location)) ==> {
            &&& object.len() > 0
            &&& last_value_where(attrs, |k: Seq<char>| name_key(k), object)
            &&& exists|ty: Seq<char>| last_value_where(attrs, |k: Seq<char>| type_key(k), ty) && kind == kind_of_token(ty)
            &&& last_value_where(attrs, |k: Seq<char>| uri_key(k), location)
        },
{
    let pats = seq!["name"@, "type"@, "uri"@];
    lemma_scan_last(attrs, pats, 0);
    lemma_scan_last(attrs, pats, 1);
    lemma_scan_last(attrs, pats, 2);
    assert forall|k: Seq<char>| #![trigger name_key(k)] #![trigger type_key(k)] #![trigger uri_key(k)]
        (slot_of(k, pats) == 0) == name_key(k) && (slot_of(k, pats) == 1) == type_key(k) && (slot_of(k, pats) == 2)
            == uri_key(k) by {
        lemma_usage_slots(k);
    }
    let f1 = |k: Seq<char>| slot_of(k, pats) == 1;
    let g1 = |k: Seq<char>| type_key(k);
    assert(f1 =~= g1);
    assert(last_value_where(attrs, g1, filled(scan(attrs, pats)[1])));
    let f0 = |k: Seq<char>| slot_of(k, pats) == 0;
    let g0 = |k: Seq<char>| name_key(k);
    let f2 = |k: Seq<char>| slot_of(k, pats) == 2;
    let g2 = |k: Seq<char>| uri_key(k);
    assert(f0 =~= g0);
    assert(f2 =~= g2);
}

/// The kinds with an ADT endpoint of their own (the others share the
/// object-properties lookup).
pub open spec fn has_endpoint(k: AbapObjectKind) -> bool {
    match k {
        AbapObjectKind::Program | AbapObjectKind::Class | AbapObjectKind::Interface | AbapObjectKind::Include
        | AbapObjectKind::FunctionGroup | AbapObjectKind::FunctionModule | AbapObjectKind::Table
        | AbapObjectKind::CdsView | AbapObjectKind::Package => true,
        _ => false,
    }
}

/// Each kind with an endpoint of its own is read from its own collection: two
/// different such kinds never share a URI for the same object name.
pub proof fn law_paths_distinct(k1: AbapObjectKind, k2: AbapObjectKind, name: Seq<char>)
    requires
        has_endpoint(k1),
        has_endpoint(k2),
        k1 != k2,
    ensures
        object_path(k1, name) != object_path(k2, name),
{
    reveal_strlit("/sap/bc/adt/programs/programs/");
    reveal_strlit("/sap/bc/adt/oo/classes/");
    reveal_strlit("/sap/bc/adt/oo/interfaces/");
    reveal_strlit("/sap/bc/adt/programs/includes/");
    reveal_strlit("/sap/bc/adt/functions/groups/");
    reveal_strlit("/sap/bc/adt/functions/groups/{group}/fmodules/");
    reveal_strlit("/sap/bc/adt/ddic/tables/");
    reveal_strlit("/sap/bc/adt/ddic/ddl/sources/");
    reveal_strlit("/sap/bc/adt/repository/nodestructure?parent_name=");
    reveal_strlit("/source/main");
    reveal_strlit("&parent_type=DEVC%2FK");
    let p1 = object_path(k1, name);
    let p2 = object_path(k2, name);
    if p1 == p2 {
        assert(p1.len() == p2.len());
        assert(p1[12] == p2[12]);
        assert(p1[15] == p2[15]);
        assert(p1[17] == p2[17]);
        assert(p1[21] == p2[21]);
    }
}

/// Each kind with an endpoint of its own is read from its ADT collection: a class
/// from `oo/classes`, an interface from `oo/interfaces`, a program from
/// `programs/programs`, an include from `programs/includes`, a function group from
/// `functions/groups`, a function module from a group's `fmodules`, a table from
/// `ddic/tables`, a CDS view from `ddic/ddl/sources`, a package from the repository
/// node structure; and every source path ends in `/source/main`.
pub proof fn law_path_collections(name: Seq<char>)
    ensures
        starts_with_seq(object_path(AbapObjectKind::Class, name), "/sap/bc/adt/oo/classes/"@),
        starts_with_seq(object_path(AbapObjectKind::Interface, name), "/sap/bc/adt/oo/interfaces/"@),
        starts_with_seq(object_path(AbapObjectKind::Program, name), "/sap/bc/adt/programs/programs/"@),
        starts_with_seq(object_path(AbapObjectKind::Include, name), "/sap/bc/adt/programs/includes/"@),
        starts_with_seq(object_path(AbapObjectKind::FunctionGroup, name), "/sap/bc/adt/functions/groups/"@),
        starts_with_seq(
            object_path(AbapObjectKind::FunctionModule, name),
            "/sap/bc/adt/functions/groups/{group}/fmodules/"@,
        ),
        starts_with_seq(object_path(AbapObjectKind::Table, name), "/sap/bc/adt/ddic/tables/"@),
        starts_with_seq(object_path(AbapObjectKind::CdsView, name), "/sap/bc/adt/ddic/ddl/sources/"@),
        starts_with_seq(
            object_path(AbapObjectKind::Package, name),
            "/sap/bc/adt/repository/nodestructure?parent_name="@,
        ),
        forall|k: AbapObjectKind| has_endpoint(k) && k != AbapObjectKind::Package ==> ends_with_seq(
            #[trigger] object_path(k, name),
            "/source/main"@,
        ),
{
    let n = lowercase(name);
    assert forall|a: Seq<char>, b: Seq<char>| #[trigger] starts_with_seq(a + n + b, a) by {
        assert((a + n + b).subrange(0, a.len() as int) =~= a);
    }
    assert forall|a: Seq<char>, b: Seq<char>| #[trigger] ends_with_seq(a + n + b, b) by {
        assert((a + n + b).subrange((a + n + b).len() - b.len(), (a + n + b).len() as int) =~= b);
    }
}

} // verus!
