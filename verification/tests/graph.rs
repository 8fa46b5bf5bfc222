use nodedb_control::graph::csr::{CsrIndex, SurrogateBitmap};
use nodedb_control::graph::overlay_delta::GraphOverlayDelta;
use nodedb_control::graph::traversal_overlay::{BfsParams, DEFAULT_MAX_VISITED};
use nodedb_control::graph::walk::Direction;

fn base() -> CsrIndex {
    let mut csr = CsrIndex::new();
    csr.add_edge("a", "KNOWS", "b").unwrap();
    csr
}

#[test]
fn multi_hop_through_staged_only_node() {
    // Durable: a->b. Staged: a->x, x->y. A 2-hop BFS from "a" must reach
    // "y" through the staged-only intermediate "x" (which has no CSR id).
    let csr = base();
    let mut ov = GraphOverlayDelta::new();
    ov.stage_edge("a", "KNOWS", "x");
    ov.stage_edge("x", "KNOWS", "y");

    let mut r = csr.traverse_bfs(
        BfsParams {
            start_nodes: &["a"],
            label_filter: Some("KNOWS"),
            direction: Direction::Out,
            max_depth: 2,
            max_visited: DEFAULT_MAX_VISITED,
            frontier_bitmap: None,
        },
        Some(&ov),
    );
    r.sort();
    assert_eq!(r, vec!["a", "b", "x", "y"]);
}

#[test]
fn tombstone_skips_durable_edge() {
    let csr = base();
    let mut ov = GraphOverlayDelta::new();
    ov.stage_tombstone("a", "KNOWS", "b");

    let mut r = csr.traverse_bfs(
        BfsParams {
            start_nodes: &["a"],
            label_filter: Some("KNOWS"),
            direction: Direction::Out,
            max_depth: 2,
            max_visited: DEFAULT_MAX_VISITED,
            frontier_bitmap: None,
        },
        Some(&ov),
    );
    r.sort();
    assert_eq!(r, vec!["a"]);
}

#[test]
fn subgraph_includes_staged_and_skips_tombstone() {
    // Durable a->b (tombstoned) + a->c. Staged a->x.
    let mut csr = CsrIndex::new();
    csr.add_edge("a", "KNOWS", "b").unwrap();
    csr.add_edge("a", "KNOWS", "c").unwrap();
    let mut ov = GraphOverlayDelta::new();
    ov.stage_tombstone("a", "KNOWS", "b");
    ov.stage_edge("a", "KNOWS", "x");

    let edges = csr.subgraph(
        &["a"],
        Some("KNOWS"),
        Direction::Out,
        1,
        DEFAULT_MAX_VISITED,
        Some(&ov),
    );
    assert!(edges.contains(&("a".into(), "KNOWS".into(), "c".into())));
    assert!(edges.contains(&("a".into(), "KNOWS".into(), "x".into())));
    assert!(!edges.contains(&("a".into(), "KNOWS".into(), "b".into())));
}

#[test]
fn subgraph_in_direction_surfaces_staged_in_edge() {
    // Staged in-edge z->a; querying subgraph In from "a" surfaces it.
    let csr = base();
    let mut ov = GraphOverlayDelta::new();
    ov.stage_edge("z", "KNOWS", "a");

    let edges = csr.subgraph(
        &["a"],
        Some("KNOWS"),
        Direction::In,
        1,
        DEFAULT_MAX_VISITED,
        Some(&ov),
    );
    assert!(edges.contains(&("z".into(), "KNOWS".into(), "a".into())));
}

/// The overlay path carries the same BFS-discovery-order guarantee as the
/// durable path: repeated identical traversals return the identical
/// sequence, nearest first.
#[test]
fn overlay_bfs_returns_a_stable_breadth_first_order() {
    let mut csr = CsrIndex::new();
    for b in 0..20 {
        csr.add_edge("root", "KNOWS", &format!("d{b}")).unwrap();
    }
    let mut ov = GraphOverlayDelta::new();
    for b in 0..20 {
        ov.stage_edge(&format!("d{b}"), "KNOWS", &format!("s{b}"));
    }

    let run = || {
        csr.traverse_bfs(
            BfsParams {
                start_nodes: &["root"],
                label_filter: None,
                direction: Direction::Out,
                max_depth: 2,
                max_visited: DEFAULT_MAX_VISITED,
                frontier_bitmap: None,
            },
            Some(&ov),
        )
    };

    let first = run();
    assert_eq!(first.len(), 41);
    for i in 1..8 {
        assert_eq!(run(), first, "traversal {i} returned a different order");
    }

    assert_eq!(first[0], "root");
    // Every durable depth-1 node precedes every staged depth-2 node.
    let last_d = first.iter().rposition(|n| n.starts_with('d')).unwrap();
    let first_s = first.iter().position(|n| n.starts_with('s')).unwrap();
    assert!(last_d < first_s, "result is not breadth-first: {first:?}");
}

#[test]
fn empty_overlay_matches_durable() {
    let csr = base();
    let ov = GraphOverlayDelta::new();
    let mut with = csr.traverse_bfs(
        BfsParams {
            start_nodes: &["a"],
            label_filter: None,
            direction: Direction::Out,
            max_depth: 2,
            max_visited: DEFAULT_MAX_VISITED,
            frontier_bitmap: None,
        },
        Some(&ov),
    );
    let mut without = csr.traverse_bfs(
        BfsParams {
            start_nodes: &["a"],
            label_filter: None,
            direction: Direction::Out,
            max_depth: 2,
            max_visited: DEFAULT_MAX_VISITED,
            frontier_bitmap: None,
        },
        None,
    );
    with.sort();
    without.sort();
    assert_eq!(with, without);
}

fn params<'a>(start_nodes: &'a [&'a str], max_depth: usize) -> BfsParams<'a> {
    BfsParams {
        start_nodes,
        label_filter: None,
        direction: Direction::Out,
        max_depth,
        max_visited: DEFAULT_MAX_VISITED,
        frontier_bitmap: None,
    }
}

#[test]
fn the_visited_cap_is_exact_and_start_nodes_ignore_it() {
    let mut csr = CsrIndex::new();
    for b in 0..10 {
        csr.add_edge("root", "KNOWS", &format!("n{b}")).unwrap();
    }
    let mut capped = params(&["root"], 3);
    capped.max_visited = 4;
    assert_eq!(csr.traverse_bfs(capped, None), vec!["root", "n0", "n1", "n2"]);

    let mut starts = params(&["x", "y", "x", "z"], 3);
    starts.max_visited = 1;
    assert_eq!(csr.traverse_bfs(starts, None), vec!["x", "y", "z"]);
}

#[test]
fn depth_zero_finds_only_the_start_nodes() {
    let csr = base();
    assert_eq!(csr.traverse_bfs(params(&["a"], 0), None), vec!["a"]);
    assert_eq!(csr.traverse_bfs(params(&["a"], 1), None), vec!["a", "b"]);
}

#[test]
fn a_node_is_found_at_its_nearest_depth_once() {
    let mut csr = CsrIndex::new();
    csr.add_edge("a", "L", "b").unwrap();
    csr.add_edge("b", "L", "c").unwrap();
    csr.add_edge("a", "L", "c").unwrap();
    csr.add_edge("c", "L", "a").unwrap();
    assert_eq!(csr.traverse_bfs(params(&["a"], 5), None), vec!["a", "b", "c"]);
}

#[test]
fn a_full_traversal_is_still_nearest_first() {
    // c is two steps away by way of b and one step away on its own.
    let mut csr = CsrIndex::new();
    for (src, dst) in [("a", "b"), ("b", "c"), ("b", "d"), ("a", "c"), ("c", "e"), ("d", "f")] {
        csr.add_edge(src, "KNOWS", dst).unwrap();
    }
    for (cap, expected) in [
        (2, vec!["a", "b"]),
        (3, vec!["a", "b", "c"]),
        (4, vec!["a", "b", "c", "d"]),
        (5, vec!["a", "b", "c", "d", "e"]),
    ] {
        let limits = BfsParams { max_visited: cap, ..params(&["a"], 9) };
        assert_eq!(csr.traverse_bfs(limits, None), expected);
    }
}

#[test]
fn subgraphs_hold_the_edges_of_near_nodes() {
    let mut csr = CsrIndex::new();
    for (src, dst) in [("a", "b"), ("b", "c"), ("c", "d"), ("b", "a")] {
        csr.add_edge(src, "KNOWS", dst).unwrap();
    }
    let mut ov = GraphOverlayDelta::new();
    ov.stage_edge("b", "LIKES", "x");
    ov.stage_edge("x", "LIKES", "y");
    let mut edges = csr.subgraph(&["a"], None, Direction::Out, 2, 100, Some(&ov));
    edges.sort();
    let expected: Vec<(String, String, String)> =
        [("a", "KNOWS", "b"), ("b", "KNOWS", "a"), ("b", "KNOWS", "c"), ("b", "LIKES", "x")]
            .iter()
            .map(|(s, l, d)| (s.to_string(), l.to_string(), d.to_string()))
            .collect();
    assert_eq!(edges, expected);
}

#[test]
fn both_directions_follow_edges_either_way() {
    let mut csr = CsrIndex::new();
    csr.add_edge("a", "L", "b").unwrap();
    csr.add_edge("c", "L", "a").unwrap();
    let mut p = params(&["a"], 1);
    p.direction = Direction::Both;
    assert_eq!(csr.traverse_bfs(p, None), vec!["a", "b", "c"]);
    let mut p = params(&["a"], 1);
    p.direction = Direction::In;
    assert_eq!(csr.traverse_bfs(p, None), vec!["a", "c"]);
}

#[test]
fn the_last_write_to_an_edge_decides() {
    let csr = base();
    let mut ov = GraphOverlayDelta::new();
    assert!(ov.is_empty());
    ov.stage_tombstone("a", "KNOWS", "b");
    assert!(ov.is_tombstoned("a", "KNOWS", "b"));
    ov.stage_edge("a", "KNOWS", "b");
    assert!(!ov.is_tombstoned("a", "KNOWS", "b"));
    assert_eq!(csr.traverse_bfs(params(&["a"], 1), Some(&ov)), vec!["a", "b"]);
    ov.stage_tombstone("a", "KNOWS", "b");
    assert!(ov.staged_edges().is_empty());
    assert_eq!(csr.traverse_bfs(params(&["a"], 1), Some(&ov)), vec!["a"]);
    assert!(!ov.is_empty());
}

#[test]
fn the_frontier_bitmap_holds_back_durable_edges_only() {
    let mut csr = CsrIndex::new();
    csr.add_edge("a", "L", "b").unwrap();
    csr.add_edge("a", "L", "c").unwrap();
    assert!(csr.bind_surrogate("b", 7));
    assert!(csr.bind_surrogate("c", 8));
    assert!(!csr.bind_surrogate("nobody", 9));
    let mut bitmap = SurrogateBitmap::new();
    bitmap.insert(8);
    assert!(bitmap.contains(8) && !bitmap.contains(7));
    let mut ov = GraphOverlayDelta::new();
    ov.stage_edge("a", "L", "staged");
    let mut p = params(&["a"], 1);
    p.frontier_bitmap = Some(&bitmap);
    assert_eq!(csr.traverse_bfs(p, Some(&ov)), vec!["a", "c", "staged"]);
}

#[test]
fn a_label_that_no_durable_edge_has_filters_staged_edges_only() {
    let csr = base();
    let mut ov = GraphOverlayDelta::new();
    ov.stage_edge("a", "LIKES", "x");
    ov.stage_edge("a", "HATES", "y");
    let mut p = params(&["a"], 1);
    p.label_filter = Some("LIKES");
    assert_eq!(csr.traverse_bfs(p, Some(&ov)), vec!["a", "b", "x"]);
    assert!(csr.has_label("KNOWS") && !csr.has_label("LIKES"));
}
