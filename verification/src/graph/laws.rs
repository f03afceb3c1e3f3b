//! What holds of the graph across operations.
use vstd::prelude::*;
use crate::graph::corpus::{edge_key, first_of_each, has_key, lemma_first_of_each_keys};
use crate::graph::entity::{opt_or_empty, Edge, Entity};
use crate::graph::hops::{edge, is_hop_count, is_seed, lemma_step, lemma_within_mono, within, UNREACHED};
use crate::graph::store::{
    candidates, haystack, ids_unique, in_of, lemma_position_absent, lemma_position_bounds, long_terms, out_of,
    position, seed_terms, seeds_spec, upsert,
};
use crate::rank::{lemma_sort_desc, sort_desc};
use crate::text::{
    contains_seq, join_seq, lemma_contains_within, lemma_join_contains, lemma_lowercase_join, lemma_score_positive,
    lemma_words_are_nonempty, lowercase, lowercase_splits_at_spaces, score_of, views, words,
};

verus! {

/// The entity stored under `id`, if any.
pub open spec fn entity_at(nodes: Seq<Entity>, id: Seq<char>) -> Option<Entity> {
    let p = position(nodes, id);
    if p >= 0 { Some(nodes[p]) } else { None }
}

/// The position of an id, searched from the back, is its last occurrence.
proof fn lemma_position_last(nodes: Seq<Entity>, id: Seq<char>, k: int)
    requires
        0 <= k < nodes.len(),
        nodes[k].id@ == id,
        forall|m: int| k < m < nodes.len() ==> nodes[m].id@ != id,
    ensures
        position(nodes, id) == k,
    decreases nodes.len(),
{
    if nodes.len() - 1 != k {
        assert(nodes.last().id@ != id);
        lemma_position_last(nodes.drop_last(), id, k);
    }
}

/// Reading an id just written gives the entity written.
pub proof fn law_add_then_node(nodes: Seq<Entity>, e: Entity)
    requires
        ids_unique(nodes),
    ensures
        entity_at(upsert(nodes, e), e.id@) == Some(e),
{
    lemma_position_bounds(nodes, e.id@);
    let p = position(nodes, e.id@);
    let t = upsert(nodes, e);
    if p >= 0 {
        assert forall|m: int| p < m < t.len() implies t[m].id@ != e.id@ by {
            assert(t[m] == nodes[m]);
            assert(nodes[p].id@ == e.id@);
        }
        lemma_position_last(t, e.id@, p);
    } else {
        lemma_position_last(t, e.id@, nodes.len() as int);
    }
}

/// Writing one id leaves what every other id reads unchanged.
pub proof fn law_add_keeps_others(nodes: Seq<Entity>, e: Entity, id: Seq<char>)
    requires
        ids_unique(nodes),
        id != e.id@,
    ensures
        entity_at(upsert(nodes, e), id) == entity_at(nodes, id),
{
    lemma_position_bounds(nodes, e.id@);
    lemma_position_bounds(nodes, id);
    let p = position(nodes, e.id@);
    let q = position(nodes, id);
    let t = upsert(nodes, e);
    if q >= 0 {
        assert forall|m: int| q < m < t.len() implies t[m].id@ != id by {
            if m < nodes.len() && m != p {
                assert(t[m] == nodes[m]);
                assert(nodes[q].id@ == id);
            }
        }
        assert(t[q] == nodes[q]) by {
            if q == p {
                assert(nodes[p].id@ == e.id@);
            }
        }
        lemma_position_last(t, id, q);
    } else {
        lemma_position_absent(nodes, id);
        if position(t, id) >= 0 {
            lemma_position_bounds(t, id);
            let r = position(t, id);
            if r < nodes.len() && r != p {
                assert(t[r] == nodes[r]);
            }
        }
    }
}

/// An added edge becomes the last outgoing neighbour of its source and the last
/// incoming neighbour of its target.
pub proof fn law_add_edge_neighbours(edges: Seq<Edge>, e: Edge)
    ensures
        out_of(edges.push(e), e.from@) == out_of(edges, e.from@).push((e.to@, e.kind, e.weight_milli)),
        in_of(edges.push(e), e.to@) == in_of(edges, e.to@).push((e.from@, e.kind, e.weight_milli)),
{
    assert(edges.push(e).drop_last() =~= edges);
}

/// Loading edges once keeps no two edges with the same endpoints and kind.
pub proof fn law_edges_loaded_once(s: Seq<Edge>)
    ensures
        forall|i: int, j: int|
            0 <= i < j < first_of_each(s).len() ==> edge_key(#[trigger] first_of_each(s)[i]) != edge_key(
                #[trigger] first_of_each(s)[j],
            ),
    decreases s.len(),
{
    if s.len() > 0 {
        let p = s.drop_last();
        law_edges_loaded_once(p);
        let d = first_of_each(p);
        if !has_key(p, edge_key(s.last())) {
            lemma_first_of_each_keys(p, edge_key(s.last()));
            assert forall|i: int, j: int|
                0 <= i < j < first_of_each(s).len() implies edge_key(#[trigger] first_of_each(s)[i]) != edge_key(
                #[trigger] first_of_each(s)[j],
            ) by {
                if j == d.len() {
                    assert(first_of_each(s)[i] == d[i]);
                    if edge_key(d[i]) == edge_key(s.last()) {
                        assert(has_key(d, edge_key(s.last())));
                    }
                } else {
                    assert(first_of_each(s)[i] == d[i]);
                    assert(first_of_each(s)[j] == d[j]);
                }
            }
        }
    }
}

/// A seed is at hop distance 0.
pub proof fn law_seed_at_zero(adj: Seq<Seq<usize>>, seeds: Seq<usize>, max_hops: u32, j: int, h: u32)
    requires
        is_hop_count(adj, seeds, max_hops, j, h),
        is_seed(seeds, j),
    ensures
        h == 0,
{
    assert(within(adj, seeds, 0, j));
    if h == UNREACHED {
        lemma_within_mono(adj, seeds, 0, max_hops as int, j);
    } else if h > 0 {
        lemma_within_mono(adj, seeds, 0, h - 1, j);
    }
}

/// A neighbour of a node at distance `h` below the budget is at distance at most
/// `h + 1`.
pub proof fn law_neighbour_within_one(
    adj: Seq<Seq<usize>>,
    seeds: Seq<usize>,
    max_hops: u32,
    i: int,
    j: int,
    hi: u32,
    hj: u32,
)
    requires
        0 <= i < adj.len(),
        is_hop_count(adj, seeds, max_hops, i, hi),
        is_hop_count(adj, seeds, max_hops, j, hj),
        hi != UNREACHED,
        hi < max_hops,
        edge(adj, i, j),
    ensures
        hj != UNREACHED,
        hj <= hi + 1,
{
    lemma_step(adj, seeds, hi as int, i, j);
    if hj == UNREACHED {
        lemma_within_mono(adj, seeds, hi + 1, max_hops as int, j);
    } else if hj > hi + 1 {
        lemma_within_mono(adj, seeds, hi + 1, hj - 1, j);
    }
}

proof fn lemma_long_terms_from(ts: Seq<Seq<char>>)
    ensures
        forall|k: int| 0 <= k < long_terms(ts).len() ==> ts.contains(#[trigger] long_terms(ts)[k]),
    decreases ts.len(),
{
    if ts.len() > 0 {
        lemma_long_terms_from(ts.drop_last());
        let rest = long_terms(ts.drop_last());
        assert forall|k: int| 0 <= k < long_terms(ts).len() implies ts.contains(#[trigger] long_terms(ts)[k]) by {
            if k < rest.len() {
                assert(long_terms(ts)[k] == rest[k]);
                let w = choose|w: int| 0 <= w < ts.drop_last().len() && ts.drop_last()[w] == rest[k];
                assert(ts[w] == rest[k]);
            } else {
                assert(long_terms(ts)[k] == ts.last());
                assert(ts[ts.len() - 1] == ts.last());
            }
        }
    }
}

proof fn lemma_candidate_listed(nodes: Seq<Entity>, terms: Seq<Seq<char>>, i: int)
    requires
        0 <= i < nodes.len(),
        score_of(haystack(nodes[i]), terms) > 0,
    ensures
        candidates(nodes, terms).contains((score_of(haystack(nodes[i]), terms), nodes[i].id)),
    decreases nodes.len(),
{
    let pair = (score_of(haystack(nodes[i]), terms), nodes[i].id);
    let rest = candidates(nodes.drop_last(), terms);
    if i == nodes.len() - 1 {
        assert(candidates(nodes, terms) == rest.push(pair));
        assert(rest.push(pair)[rest.len() as int] == pair);
    } else {
        assert(nodes.drop_last()[i] == nodes[i]);
        lemma_candidate_listed(nodes.drop_last(), terms, i);
        let w = choose|w: int| 0 <= w < rest.len() && rest[w] == pair;
        assert(candidates(nodes, terms)[w] == pair);
    }
}

/// The query word `t` occurs in the lower-cased label or description of `e`, or in
/// one of its lower-cased tags.
pub open spec fn entity_matches(e: Entity, t: Seq<char>) -> bool {
    ||| contains_seq(lowercase(e.label@), t)
    ||| contains_seq(lowercase(opt_or_empty(e.description)), t)
    ||| exists|j: int| 0 <= j < e.tags@.len() && contains_seq(lowercase(#[trigger] e.tags@[j]@), t)
}

/// Seeds are found by label, description and tags: an entity whose lower-cased
/// label, description or one of whose lower-cased tags contains a word of the query
/// (of two bytes or more) scores above zero, so it is among the seeds unless they
/// already number `max_seeds`. (For tags it rests on `str::to_lowercase` treating
/// the two sides of a space independently.)
pub proof fn law_seeds_found_by_text(nodes: Seq<Entity>, query: Seq<char>, max_seeds: nat, e: Entity, t: Seq<char>)
    requires
        lowercase_splits_at_spaces(),
        nodes.contains(e),
        seed_terms(query).contains(t),
        entity_matches(e, t),
    ensures
        seeds_spec(nodes, query, max_seeds).contains(e.id@) || seeds_spec(nodes, query, max_seeds).len() == max_seeds,
{
    let terms = seed_terms(query);
    lemma_long_terms_from(words(lowercase(query)));
    lemma_words_are_nonempty(lowercase(query));
    let ti = choose|ti: int| 0 <= ti < terms.len() && terms[ti] == t;
    assert(words(lowercase(query)).contains(terms[ti]));
    assert(t.len() > 0);
    let tags = views(e.tags@);
    let lab = lowercase(e.label@);
    let des = lowercase(opt_or_empty(e.description));
    let tg = lowercase(join_seq(tags, seq![' ']));
    assert(haystack(e) =~= lab + (seq![' '] + des + seq![' '] + tg));
    assert(haystack(e) =~= lab + seq![' '] + des + (seq![' '] + tg));
    assert(haystack(e) =~= (lab + seq![' '] + des + seq![' ']) + tg);
    if contains_seq(lab, t) {
        lemma_contains_within(Seq::empty(), lab, seq![' '] + des + seq![' '] + tg, t);
        assert(Seq::<char>::empty() + lab + (seq![' '] + des + seq![' '] + tg) =~= haystack(e));
    } else if contains_seq(des, t) {
        lemma_contains_within(lab + seq![' '], des, seq![' '] + tg, t);
    } else {
        let j = choose|j: int| 0 <= j < e.tags@.len() && contains_seq(lowercase(#[trigger] e.tags@[j]@), t);
        reveal_strlit(" ");
        assert(" "@ =~= seq![' ']);
        lemma_lowercase_join(tags);
        let lt = tags.map_values(|x: Seq<char>| lowercase(x));
        assert(lt[j] == lowercase(e.tags@[j]@));
        lemma_join_contains(lt, " "@, j, t);
        lemma_contains_within(lab + seq![' '] + des + seq![' '], tg, Seq::empty(), t);
        assert(lab + seq![' '] + des + seq![' '] + tg + Seq::<char>::empty() =~= haystack(e));
    }
    lemma_score_positive(haystack(e), terms, ti);
    let i = choose|i: int| 0 <= i < nodes.len() && nodes[i] == e;
    lemma_candidate_listed(nodes, terms, i);
    let cands = candidates(nodes, terms);
    let pair = (score_of(haystack(e), terms), e.id);
    lemma_sort_desc(cands);
    let ranked = sort_desc(cands);
    broadcast use vstd::seq_lib::group_to_multiset_ensures;
    assert(cands.to_multiset().count(pair) > 0);
    assert(ranked.to_multiset().count(pair) > 0);
    assert(ranked.contains(pair));
    if ranked.len() <= max_seeds {
        let m = choose|m: int| 0 <= m < ranked.len() && ranked[m] == pair;
        assert(seeds_spec(nodes, query, max_seeds)[m] == e.id@);
    }
}

} // verus!
