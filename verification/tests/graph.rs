use sap_automate::graph::community::{
    detect_communities, detection_supported, group_communities, renumber, Communities,
};
use sap_automate::graph::entity::{Edge, EdgeKind, Entity, EntityKind};
use sap_automate::graph::hops::{bfs_hops, UNREACHED};
use sap_automate::graph::raptor::build_raptor_tree;
use sap_automate::graph::store::InMemoryGraph;

fn communities_by_module(g: &InMemoryGraph) -> Communities {
    let mut membership: Vec<(String, u32)> = Vec::new();
    for n in g.nodes() {
        let c = if n.tags.iter().any(|t| t == "module:FI") {
            0
        } else if n.tags.iter().any(|t| t == "module:MM") {
            1
        } else {
            2
        };
        membership.push((n.id.clone(), c));
    }
    let groups = group_communities(g, &membership);
    let communities = renumber(groups, &mut membership);
    Communities { communities, membership }
}

fn entity(id: &str, label: &str) -> Entity {
    Entity {
        id: id.to_string(),
        kind: EntityKind::Concept,
        label: label.to_string(),
        description: None,
        uri: None,
        tags: vec![],
    }
}

#[test]
fn demo_corpus_has_cross_domain_edges() {
    let g = InMemoryGraph::with_demo_corpus();
    let stats = g.stats();
    assert!(stats.node_count >= 20, "expected >= 20 nodes, got {}", stats.node_count);
    assert!(stats.edge_count >= 25, "expected >= 25 edges, got {}", stats.edge_count);
    assert!(g.outbound("concept:period_close").iter().any(|(n, _, _)| n == "tab:FAGLFLEXA"));
    assert!(g.inbound("tab:FAGLFLEXA").iter().any(|(n, _, _)| n == "leanix:FS-12001"));
}

#[test]
fn demo_corpus_sizes_and_kinds() {
    let g = InMemoryGraph::with_demo_corpus();
    let stats = g.stats();
    assert_eq!(stats.node_count, 25);
    assert_eq!(stats.edge_count, 34);
    assert_eq!(stats.by_kind[0], ("AbapObject".to_string(), 6));
}

#[test]
fn find_seeds_locates_relevant_entities() {
    let g = InMemoryGraph::with_demo_corpus();
    let seeds = g.find_seeds("period close FAGLFLEXA", 5);
    assert!(seeds.iter().any(|s| s == "concept:period_close" || s == "tab:FAGLFLEXA" || s == "help:FI/period-close"));
    assert!(seeds.len() <= 5);
    assert!(g.find_seeds("", 5).is_empty());
    assert!(g.find_seeds("zzqx", 5).is_empty());
}

#[test]
fn raptor_tree_has_three_levels() {
    let g = InMemoryGraph::with_demo_corpus();
    assert!(detection_supported(&g));
    let cs = detect_communities(&g);
    let tree = build_raptor_tree(&g, &cs);
    assert_eq!(tree.levels.len(), 3);
    let l2 = &tree.levels[2];
    assert!(l2.nodes.iter().any(|n| n.id == "module:FI"));
    assert_eq!(tree.leaves().len(), 25);
    assert_eq!(tree.root().unwrap().level, 2);
}

#[test]
fn communities_are_numbered_by_size() {
    let g = InMemoryGraph::with_demo_corpus();
    let cs = communities_by_module(&g);
    let sizes: Vec<usize> = cs.communities.iter().map(|c| c.members.len()).collect();
    assert!(sizes.windows(2).all(|w| w[0] >= w[1]));
    assert_eq!(cs.communities.iter().map(|c| c.id).collect::<Vec<_>>(), vec![0, 1, 2]);
    let fi = cs.for_node("tab:BSEG").unwrap();
    assert!(fi.members.iter().any(|m| m == "tab:T001"));
    assert!(cs.for_node("nope").is_none());
    let members = &cs.communities[0].members;
    assert!(members.windows(2).all(|w| w[0] <= w[1]));
}

#[test]
fn adding_an_entity_replaces_one_with_the_same_id() {
    let mut g = InMemoryGraph::new();
    g.add_entity(entity("a", "first"));
    g.add_entity(entity("b", "other"));
    g.add_entity(entity("a", "second"));
    assert_eq!(g.nodes().len(), 2);
    assert_eq!(g.node("a").unwrap().label, "second");
    assert_eq!(g.node("b").unwrap().label, "other");
    assert!(g.node("c").is_none());
}

#[test]
fn edges_show_up_as_neighbours_both_ways() {
    let mut g = InMemoryGraph::new();
    g.add_entity(entity("a", "A"));
    g.add_entity(entity("b", "B"));
    g.add_edge(Edge { from: "a".to_string(), to: "b".to_string(), kind: EdgeKind::Calls, weight_milli: 1500 });
    g.add_edge(Edge { from: "b".to_string(), to: "a".to_string(), kind: EdgeKind::Related, weight_milli: 500 });
    assert_eq!(g.outbound("a"), vec![("b".to_string(), EdgeKind::Calls, 1500)]);
    assert_eq!(g.inbound("a"), vec![("b".to_string(), EdgeKind::Related, 500)]);
    assert_eq!(g.undirected_neighbours("a"), vec![("b".to_string(), 2000)]);
}

#[test]
fn hops_count_from_the_nearest_seed() {
    let adj: Vec<Vec<usize>> = vec![vec![1], vec![2], vec![], vec![0]];
    let hops = bfs_hops(&adj, &vec![0], 1);
    assert_eq!(hops, vec![0, 1, UNREACHED, UNREACHED]);
    let hops = bfs_hops(&adj, &vec![0], 5);
    assert_eq!(hops, vec![0, 1, 2, UNREACHED]);
    let hops = bfs_hops(&adj, &vec![3, 2], 5);
    assert_eq!(hops, vec![1, 2, 0, 0]);
    let hops = bfs_hops(&adj, &vec![0], u32::MAX);
    assert_eq!(hops, vec![0, 1, 2, UNREACHED]);
}

#[test]
fn detect_communities_on_demo_corpus_produces_modules() {
    let g = InMemoryGraph::with_demo_corpus();
    assert!(detection_supported(&g));
    let result = detect_communities(&g);
    assert!(
        result.communities.len() >= 2 && result.communities.len() <= 12,
        "expected 2..=12 communities, got {}",
        result.communities.len()
    );
    let fi_nodes = [
        "abap:ZFIN_POST_JE",
        "abap:ZCL_FIN_POSTER",
        "rfc:BAPI_ACC_DOCUMENT_POST",
        "concept:journal_entry",
        "concept:period_close",
        "help:FI/period-close",
    ];
    let mut comms: Vec<u32> = fi_nodes
        .iter()
        .filter_map(|n| result.membership.iter().find(|(id, _)| id == n).map(|(_, c)| *c))
        .collect();
    comms.sort();
    comms.dedup();
    assert!(comms.len() <= 3, "FI-related entities scattered across {} communities", comms.len());
}

fn weighted(edges: &[(&str, &str, u32)], ids: &[&str]) -> InMemoryGraph {
    let mut g = InMemoryGraph::new();
    for id in ids {
        g.add_entity(entity(id, &id.to_uppercase()));
    }
    for (a, b, w) in edges {
        g.add_edge(Edge { from: a.to_string(), to: b.to_string(), kind: EdgeKind::Related, weight_milli: *w });
    }
    g
}

#[test]
fn each_move_takes_the_largest_joining_gain() {
    // a joins b (gain 8.2M beats 8.0M for c), then b and c each follow their
    // best neighbouring community; the light c-d edge never pays.
    let g = weighted(
        &[
            ("a", "b", 1000),
            ("b", "c", 1000),
            ("a", "c", 1000),
            ("d", "e", 1000),
            ("e", "f", 1000),
            ("d", "f", 1000),
            ("c", "d", 100),
        ],
        &["a", "b", "c", "d", "e", "f"],
    );
    assert!(detection_supported(&g));
    let r = detect_communities(&g);
    let m: Vec<(&str, u32)> = r.membership.iter().map(|(id, c)| (id.as_str(), *c)).collect();
    assert_eq!(m, vec![("a", 0), ("b", 2), ("c", 0), ("d", 1), ("e", 3), ("f", 1)]);
    let members: Vec<Vec<String>> = r.communities.iter().map(|c| c.members.clone()).collect();
    assert_eq!(
        members,
        vec![
            vec!["a".to_string(), "c".to_string()],
            vec!["d".to_string(), "f".to_string()],
            vec!["b".to_string()],
            vec!["e".to_string()]
        ]
    );
    assert_eq!(r.communities[0].summary, "A · C");
}

#[test]
fn without_edges_every_node_is_alone() {
    let g = weighted(&[], &["b", "a", "c"]);
    let r = detect_communities(&g);
    assert_eq!(
        r.membership,
        vec![("a".to_string(), 0), ("b".to_string(), 1), ("c".to_string(), 2)]
    );
    assert_eq!(r.communities.len(), 3);
    assert_eq!(r.communities[1].members, vec!["b".to_string()]);
    assert_eq!(r.communities[1].summary, "B");
}

#[test]
fn an_edge_to_a_missing_node_is_not_supported() {
    let g = weighted(&[("a", "ghost", 1000)], &["a", "b"]);
    assert!(!detection_supported(&g));
    let g = weighted(&[("a", "ghost", 0)], &["a", "b"]);
    assert!(detection_supported(&g));
}

#[test]
fn every_node_is_a_member_once() {
    let g = InMemoryGraph::with_demo_corpus();
    let c = detect_communities(&g);
    let mut ids: Vec<&String> = c.membership.iter().map(|(id, _)| id).collect();
    let n = ids.len();
    ids.dedup();
    assert_eq!(ids.len(), n);
    assert!(n > 0);
}
