use avalon_sdk::topology_walk::{
    failure, node_url_from_parts, normalize_node_url, status_failure, timeout_failure, visit_step, Limits, VisitStep, Walk, WalkEdgeKind,
    WalkEvent, WalkFailureReason, WalkNodeStatus, WalkOptions,
};

fn link(kind: WalkEdgeKind, url: &str) -> (WalkEdgeKind, String) {
    (kind, url.to_string())
}

fn seeded(seeds: &[&str], max_nodes: usize) -> (Walk, Vec<String>, Vec<usize>) {
    let mut walk = Walk::new(max_nodes);
    let mut seed_urls = Vec::new();
    let mut level = Vec::new();
    for seed in seeds {
        walk.seed(seed, &mut seed_urls, &mut level);
    }
    (walk, seed_urls, level)
}

#[test]
fn normalizes_urls() {
    assert_eq!(
        normalize_node_url("HTTP://A.Test:8080/").as_deref(),
        Some("http://a.test:8080")
    );
    assert_eq!(
        normalize_node_url("http://a.test:80//").as_deref(),
        Some("http://a.test")
    );
    assert_eq!(normalize_node_url("ftp://a.test"), None);
    assert_eq!(normalize_node_url("nonsense"), None);
}

#[test]
fn normalization_keeps_paths_and_trims_whitespace() {
    assert_eq!(normalize_node_url("  https://Node.Example:443/base/ ").as_deref(), Some("https://node.example/base"));
}

#[test]
fn walks_a_connected_graph_with_typed_edges() {
    let (mut walk, seeds, level) = seeded(&["http://a.test"], 64);
    assert_eq!(seeds, vec!["http://a.test"]);
    assert_eq!(walk.jobs(&level, 4), vec![0]);
    let mut next = Vec::new();
    let produced = walk.apply(
        0,
        &vec![
            link(WalkEdgeKind::Active, "http://b.test"),
            link(WalkEdgeKind::Mirror, "http://b.test"),
            link(WalkEdgeKind::Known, "http://c.test/"),
        ],
        &mut next,
        4,
    );
    assert_eq!(produced, vec![0, 1, 2]);
    assert_eq!(next, vec![1, 2]);
    let mut next2 = Vec::new();
    walk.apply(1, &vec![link(WalkEdgeKind::Active, "http://a.test"), link(WalkEdgeKind::Active, "http://c.test")], &mut next2, 4);
    walk.apply(2, &Vec::new(), &mut next2, 4);
    assert!(next2.is_empty());
    assert_eq!(walk.edge_count(), 5);
    assert_eq!(walk.node(2).reported_by, vec!["http://a.test".to_string(), "http://b.test".to_string()]);
    assert_eq!(walk.node(1).depth, 1);
    assert_eq!(walk.node(2).depth, 1);
    let events = walk.take_events();
    assert_eq!(events.iter().filter(|e| matches!(e, WalkEvent::Discovered(_))).count(), 3);
    assert_eq!(events.iter().filter(|e| matches!(e, WalkEvent::Visited { .. })).count(), 3);
    let graph = walk.into_graph(seeds, false);
    assert!(graph.nodes.iter().all(|n| n.status == WalkNodeStatus::Visited));
    for e in &graph.edges {
        assert_ne!(e.from, e.to);
        let source = graph.nodes.iter().find(|n| n.url == e.from).unwrap();
        assert_eq!(source.status, WalkNodeStatus::Visited);
        let target = graph.nodes.iter().find(|n| n.url == e.to).unwrap();
        assert!(target.reported_by.contains(&e.from));
    }
    assert!(graph.nodes.iter().all(|n| n.failure.is_none()));
    assert!(!graph.truncated.max_nodes && !graph.truncated.max_depth);
    assert_eq!(graph.edges[1].kind, WalkEdgeKind::Mirror);
}

#[test]
fn a_node_reporting_itself_adds_no_edge() {
    let (mut walk, _, _) = seeded(&["http://a.test"], 64);
    let mut next = Vec::new();
    let produced = walk.apply(0, &vec![link(WalkEdgeKind::Active, "http://A.test/")], &mut next, 4);
    assert!(produced.is_empty());
    assert_eq!(walk.edge_count(), 0);
}

#[test]
fn stops_at_max_nodes() {
    let (mut walk, _, _) = seeded(&["http://a.test"], 2);
    let mut next = Vec::new();
    walk.apply(0, &vec![link(WalkEdgeKind::Active, "http://b.test"), link(WalkEdgeKind::Active, "http://c.test")], &mut next, 4);
    assert_eq!(walk.node_count(), 2);
    let graph = walk.into_graph(Vec::new(), false);
    assert!(graph.truncated.max_nodes);
}

#[test]
fn stops_at_max_depth_and_leaves_deeper_nodes_unvisited() {
    let (mut walk, _, _) = seeded(&["http://a.test"], 64);
    let mut next = Vec::new();
    walk.apply(0, &vec![link(WalkEdgeKind::Active, "http://b.test")], &mut next, 1);
    assert_eq!(next, vec![1]);
    let mut deeper = Vec::new();
    walk.apply(1, &vec![link(WalkEdgeKind::Active, "http://c.test")], &mut deeper, 1);
    assert!(deeper.is_empty());
    assert_eq!(walk.node(2).status, WalkNodeStatus::Unvisited);
    let graph = walk.into_graph(Vec::new(), false);
    assert!(graph.truncated.max_depth);
}

#[test]
fn seeds_that_are_not_urls_are_recorded_unreachable() {
    let (walk, seeds, level) = seeded(&["nonsense", "http://a.test", "HTTP://a.test/", "nonsense"], 64);
    assert_eq!(seeds, vec!["nonsense", "http://a.test"]);
    assert_eq!(level, vec![1]);
    assert_eq!(walk.node_count(), 2);
    let bad = walk.node(0);
    assert_eq!(bad.status, WalkNodeStatus::Unreachable);
    assert_eq!(bad.failure.as_ref().unwrap().reason, WalkFailureReason::ProtocolError);
    assert_eq!(bad.failure.as_ref().unwrap().message, "not an http(s) URL");
}

#[test]
fn an_unreachable_node_is_recorded_and_never_stops_the_walk() {
    let (mut walk, _, level) = seeded(&["http://a.test", "http://b.test"], 64);
    walk.fail(0, status_failure(500, None), 4);
    assert_eq!(walk.node(0).status, WalkNodeStatus::Unreachable);
    assert_eq!(walk.node(0).failure.as_ref().unwrap().status, Some(500));
    assert_eq!(walk.jobs(&level, 4), vec![1]);
}

#[test]
fn a_429_is_retried_once_within_the_budget() {
    let limited = status_failure(429, Some(2));
    assert_eq!(limited.reason, WalkFailureReason::RateLimited);
    assert_eq!(visit_step(Err(limited.clone()), false, 10_000), VisitStep::RetryAfter(2_000));
    assert_eq!(visit_step(Err(limited.clone()), true, 10_000), VisitStep::Failed(limited.clone()));
    assert_eq!(visit_step(Err(limited.clone()), false, 1_000), VisitStep::Failed(limited));
    let no_header = status_failure(429, None);
    assert_eq!(visit_step(Err(no_header), false, 10_000), VisitStep::RetryAfter(1_000));
    assert_eq!(visit_step(Ok(()), false, 0), VisitStep::Reached);
    let timeout = timeout_failure(200);
    assert_eq!(timeout.message, "no response within 200 ms");
    assert_eq!(visit_step(Err(timeout.clone()), false, 10_000), VisitStep::Failed(timeout));
    let network = failure(WalkFailureReason::Network, "refused".to_string());
    assert_eq!(network.status, None);
}

#[test]
fn limits_are_clamped_to_their_ceilings() {
    let defaults = Limits::from_options(&WalkOptions::default());
    assert_eq!((defaults.max_nodes, defaults.max_depth, defaults.concurrency), (64, 4, 4));
    let wild = Limits::from_options(&WalkOptions {
        max_nodes: 0,
        max_depth: 99,
        concurrency: 1000,
        request_timeout_ms: 0,
        max_retry_after_ms: 1_000_000,
    });
    assert_eq!(wild.max_nodes, 1);
    assert_eq!(wild.max_depth, 16);
    assert_eq!(wild.concurrency, 32);
    assert_eq!(wild.request_timeout_ms, 1);
    assert_eq!(wild.max_retry_after_ms, 120_000);
}

fn parts(scheme: &str, origin: &str, path: &str) -> Option<(String, String, String)> {
    Some((scheme.to_string(), origin.to_string(), path.to_string()))
}

#[test]
fn node_identity_from_parsed_parts() {
    assert_eq!(node_url_from_parts(parts("https", "https://a.test", "/x//")), Some("https://a.test/x".to_string()));
    assert_eq!(node_url_from_parts(parts("http", "http://a.test:8080", "/")), Some("http://a.test:8080".to_string()));
    assert_eq!(node_url_from_parts(parts("ftp", "null", "/x")), None);
    assert_eq!(node_url_from_parts(None), None);
}

#[test]
fn non_url_seeds_become_unreachable_nodes() {
    let (walk, seed_urls, level) = seeded(&["nonsense", "ftp://a.test", " nonsense "], 64);
    assert_eq!(seed_urls, vec!["nonsense".to_string(), "ftp://a.test".to_string()]);
    assert!(level.is_empty());
    assert_eq!(walk.node_count(), 2);
    assert_eq!(walk.edge_count(), 0);
    for i in 0..2 {
        let n = walk.node(i);
        assert_eq!(n.depth, 0);
        assert_eq!(n.status, WalkNodeStatus::Unreachable);
        assert_eq!(n.failure, Some(failure(WalkFailureReason::ProtocolError, "not an http(s) URL".to_string())));
    }
    assert_eq!(walk.node(0).url, "nonsense");
    assert_eq!(walk.node(1).url, "ftp://a.test");
}
