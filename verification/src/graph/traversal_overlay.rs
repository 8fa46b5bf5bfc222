//! In-transaction (read-your-own-writes) traversal and subgraph materialization.
//!
//! The frontier is keyed on the node's name: a node discovered only through a staged edge has no
//! id in the durable index, yet its own staged edges must still be followed at the next hop. Known
//! nodes still resolve through the index, so its adjacency lists are used wherever they exist.

use std::collections::VecDeque;
use vstd::hash_set::StringHashSet;
use vstd::prelude::*;

use super::csr;
use super::csr::{CsrIndex, SurrogateBitmap};
use super::overlay_delta;
use super::overlay_delta::{Edge, GraphOverlayDelta};
use super::walk;
use super::walk::{DeltaView, Direction, EdgeView, GraphView, HalfEdge, Hop, Visit, Walk};
use crate::text::same_text;

verus! {

broadcast use vstd::seq_lib::group_seq_properties;

/// The cap on visited nodes that callers use when they have none of their own.
pub const DEFAULT_MAX_VISITED: usize = 100_000;

/// What a breadth-first traversal is asked for.
#[derive(Clone, Copy)]
pub struct BfsParams<'a> {
    pub start_nodes: &'a [&'a str],
    pub label_filter: Option<&'a str>,
    pub direction: Direction,
    pub max_depth: usize,
    pub max_visited: usize,
    pub frontier_bitmap: Option<&'a SurrogateBitmap>,
}

/// The names of the start nodes.
pub open spec fn start_names(nodes: Seq<&str>) -> Seq<Seq<char>> {
    nodes.map_values(|n: &str| n@)
}

/// The walk that `params` asks for over the index and what the transaction staged.
pub open spec fn walk_of(graph: GraphView, params: BfsParams<'_>, delta: DeltaView) -> Walk {
    Walk {
        graph,
        delta,
        label: match params.label_filter {
            Some(l) => Some(l@),
            None => None,
        },
        direction: params.direction,
        max_depth: params.max_depth as nat,
        max_visited: params.max_visited as nat,
        admitted: match params.frontier_bitmap {
            Some(b) => Some(b@),
            None => None,
        },
    }
}

/// A step of a walk.
struct GraphHop {
    edge: Edge,
    outgoing: bool,
}

impl View for GraphHop {
    type V = Hop;

    closed spec fn view(&self) -> Hop {
        Hop { edge: self.edge@, peer: if self.outgoing { self.edge.dst@ } else { self.edge.src@ } }
    }
}

spec fn hop_views(hops: Seq<GraphHop>) -> Seq<Hop> {
    hops.map_values(|h: GraphHop| h@)
}

impl GraphHop {
    /// The node that the step leads to.
    fn peer(&self) -> (r: &str)
        ensures
            r@ == self@.peer,
    {
        if self.outgoing {
            self.edge.dst.as_str()
        } else {
            self.edge.src.as_str()
        }
    }
}

/// Whether `found` is what `visited` and `queue` record, when `head` nodes have been dealt with.
spec fn records(
    found: Seq<Visit>,
    head: int,
    visited: Set<Seq<char>>,
    queue: Seq<(String, usize)>,
) -> bool {
    &&& 0 <= head <= found.len()
    &&& walk::names_of(found).no_duplicates()
    &&& visited == walk::names_of(found).to_set()
    &&& queue_views(queue) == found.skip(head)
}

pub open spec fn queue_views(queue: Seq<(String, usize)>) -> Seq<Visit> {
    queue.map_values(|q: (String, usize)| (q.0@, q.1 as nat))
}

proof fn lemma_records_len(found: Seq<Visit>, visited: Set<Seq<char>>)
    requires
        walk::names_of(found).no_duplicates(),
        visited == walk::names_of(found).to_set(),
    ensures
        visited.len() == found.len(),
{
    walk::names_of(found).unique_seq_to_set();
}

impl CsrIndex {
    /// Appends the durable edges of `node` that the walk may follow, on the side asked for.
    fn push_durable_hops(
        &self,
        params: &BfsParams<'_>,
        overlay: &GraphOverlayDelta,
        node: &str,
        outgoing: bool,
        hops: &mut Vec<GraphHop>,
    )
        requires
            self.wf(),
        ensures
            hop_views(final(hops)@) == hop_views(old(hops)@) + (if outgoing {
                walk_of(self@, *params, overlay@).durable_out(node@)
            } else {
                walk_of(self@, *params, overlay@).durable_in(node@)
            }),
    {
        let ghost walk = walk_of(self@, *params, overlay@);
        let ghost before = hop_views(hops@);
        let ghost edge_at = |h: HalfEdge| if outgoing { walk::out_edge(node@, h) } else { walk::in_edge(node@, h) };
        let ghost keep = |h: HalfEdge| walk.durable_passes(edge_at(h), h.peer);
        let ghost step = |h: HalfEdge| Hop { edge: edge_at(h), peer: h.peer };
        let label_known = match params.label_filter {
            Some(l) => self.has_label(l),
            None => false,
        };
        let list = if outgoing {
            self.dense_iter_out(node)
        } else {
            self.dense_iter_in(node)
        };
        let ghost all = csr::half_edges(list@);
        let mut i: usize = 0;
        assert(all.take(0).filter(keep) =~= Seq::empty()) by {
            reveal(Seq::filter);
        }
        assert(before =~= before + all.take(0).filter(keep).map_values(step));
        while i < list.len()
            invariant
                self.wf(),
                i <= list@.len(),
                all == csr::half_edges(list@),
                walk == walk_of(self@, *params, overlay@),
                edge_at == (|h: HalfEdge|
                    if outgoing {
                        walk::out_edge(node@, h)
                    } else {
                        walk::in_edge(node@, h)
                    }),
                keep == (|h: HalfEdge| walk.durable_passes(edge_at(h), h.peer)),
                step == (|h: HalfEdge| Hop { edge: edge_at(h), peer: h.peer }),
                label_known == (match params.label_filter {
                    Some(l) => self@.labels.contains(l@),
                    None => false,
                }),
                hop_views(hops@) == before + all.take(i as int).filter(keep).map_values(step),
            decreases list@.len() - i,
        {
            let (label, peer) = list[i];
            let ghost h = HalfEdge { label: label@, peer: peer@ };
            assert(all[i as int] == h);
            assert(all.take(i + 1) =~= all.take(i as int).push(h));
            proof {
                all.take(i as int).lemma_filter_push(h, keep);
            }
            let label_passes = match params.label_filter {
                Some(l) => !label_known || same_text(label, l),
                None => true,
            };
            let (src, dst) = if outgoing {
                (node, peer)
            } else {
                (peer, node)
            };
            let admitted = match params.frontier_bitmap {
                Some(bitmap) => bitmap.contains(self.node_surrogate_raw(peer)),
                None => true,
            };
            let ghost hops_before = hops@;
            if label_passes && !overlay.is_tombstoned(src, label, dst) && admitted {
                let hop = GraphHop {
                    edge: Edge { src: src.to_owned(), label: label.to_owned(), dst: dst.to_owned() },
                    outgoing,
                };
                assert(keep(h));
                assert(hop@ == step(h));
                hops.push(hop);
                assert(hop_views(hops@) =~= hop_views(hops_before).push(step(h)));
                assert(all.take(i + 1).filter(keep).map_values(step) =~= all.take(
                    i as int,
                ).filter(keep).map_values(step).push(step(h)));
                assert(hop_views(hops@) =~= before + all.take(i + 1).filter(keep).map_values(step));
            } else {
                assert(!keep(h));
            }
            i += 1;
        }
        proof {
            assert(all.take(i as int) =~= all);
            let want = if outgoing { walk.durable_out(node@) } else { walk.durable_in(node@) };
            if outgoing {
                assert(keep =~= |h: HalfEdge| walk.durable_passes(walk::out_edge(node@, h), h.peer));
                assert(step =~= |h: HalfEdge| Hop { edge: walk::out_edge(node@, h), peer: h.peer });
            } else {
                assert(keep =~= |h: HalfEdge| walk.durable_passes(walk::in_edge(node@, h), h.peer));
                assert(step =~= |h: HalfEdge| Hop { edge: walk::in_edge(node@, h), peer: h.peer });
            }
            assert(want == all.filter(keep).map_values(step));
        }
    }

    /// Appends the staged edges of `node` that the walk may follow, on the side asked for.
    fn push_staged_hops(
        &self,
        params: &BfsParams<'_>,
        overlay: &GraphOverlayDelta,
        node: &str,
        outgoing: bool,
        hops: &mut Vec<GraphHop>,
    )
        ensures
            hop_views(final(hops)@) == hop_views(old(hops)@) + (if outgoing {
                walk_of(self@, *params, overlay@).staged_out(node@)
            } else {
                walk_of(self@, *params, overlay@).staged_in(node@)
            }),
    {
        let ghost walk = walk_of(self@, *params, overlay@);
        let ghost before = hop_views(hops@);
        let ghost keep = |e: EdgeView|
            (if outgoing { e.src } else { e.dst }) == node@ && walk.staged_label_passes(e.label);
        let ghost step = |e: EdgeView| Hop { edge: e, peer: if outgoing { e.dst } else { e.src } };
        let list = overlay.staged_edges();
        let ghost all = overlay_delta::edge_views(list@);
        let mut i: usize = 0;
        assert(all.take(0).filter(keep) =~= Seq::empty()) by {
            reveal(Seq::filter);
        }
        assert(before =~= before + all.take(0).filter(keep).map_values(step));
        while i < list.len()
            invariant
                i <= list@.len(),
                all == overlay_delta::edge_views(list@),
                walk == walk_of(self@, *params, overlay@),
                keep == (|e: EdgeView|
                    (if outgoing { e.src } else { e.dst }) == node@ && walk.staged_label_passes(
                        e.label,
                    )),
                step == (|e: EdgeView| Hop { edge: e, peer: if outgoing { e.dst } else { e.src } }),
                hop_views(hops@) == before + all.take(i as int).filter(keep).map_values(step),
            decreases list@.len() - i,
        {
            let edge = &list[i];
            let ghost e = edge@;
            assert(all[i as int] == e);
            assert(all.take(i + 1) =~= all.take(i as int).push(e));
            proof {
                all.take(i as int).lemma_filter_push(e, keep);
            }
            let near = if outgoing {
                edge.src.as_str()
            } else {
                edge.dst.as_str()
            };
            let label_passes = match params.label_filter {
                Some(l) => same_text(edge.label.as_str(), l),
                None => true,
            };
            let ghost hops_before = hops@;
            if same_text(near, node) && label_passes {
                let hop = GraphHop {
                    edge: Edge {
                        src: edge.src.clone(),
                        label: edge.label.clone(),
                        dst: edge.dst.clone(),
                    },
                    outgoing,
                };
                assert(keep(e));
                assert(hop@ == step(e));
                hops.push(hop);
                assert(hop_views(hops@) =~= hop_views(hops_before).push(step(e)));
                assert(all.take(i + 1).filter(keep).map_values(step) =~= all.take(
                    i as int,
                ).filter(keep).map_values(step).push(step(e)));
                assert(hop_views(hops@) =~= before + all.take(i + 1).filter(keep).map_values(step));
            } else {
                assert(!keep(e));
            }
            i += 1;
        }
        proof {
            assert(all.take(i as int) =~= all);
            if outgoing {
                assert(keep =~= |e: EdgeView|
                    e.src == node@ && walk.staged_label_passes(e.label));
                assert(step =~= |e: EdgeView| Hop { edge: e, peer: e.dst });
            } else {
                assert(keep =~= |e: EdgeView|
                    e.dst == node@ && walk.staged_label_passes(e.label));
                assert(step =~= |e: EdgeView| Hop { edge: e, peer: e.src });
            }
        }
    }

    /// The steps that the walk may take from `node`, in order.
    fn hops_from(
        &self,
        params: &BfsParams<'_>,
        overlay: &GraphOverlayDelta,
        node: &str,
    ) -> (r: Vec<GraphHop>)
        requires
            self.wf(),
        ensures
            hop_views(r@) == walk_of(self@, *params, overlay@).hops(node@),
    {
        let ghost walk = walk_of(self@, *params, overlay@);
        let want_out = matches!(params.direction, Direction::Out | Direction::Both);
        let want_in = matches!(params.direction, Direction::In | Direction::Both);
        let mut hops: Vec<GraphHop> = Vec::new();
        assert(hop_views(hops@) =~= Seq::empty());
        if want_out {
            self.push_durable_hops(params, overlay, node, true, &mut hops);
        }
        if want_in {
            self.push_durable_hops(params, overlay, node, false, &mut hops);
        }
        if want_out {
            self.push_staged_hops(params, overlay, node, true, &mut hops);
        }
        if want_in {
            self.push_staged_hops(params, overlay, node, false, &mut hops);
        }
        assert(hop_views(hops@) =~= walk.hops(node@));
        hops
    }
}

/// Offering one node keeps the record of what has been found.
proof fn lemma_records_offer(
    found: Seq<Visit>,
    head: int,
    visited: Set<Seq<char>>,
    queue: Seq<(String, usize)>,
    name: Seq<char>,
    depth: nat,
    cap: nat,
    visited_after: Set<Seq<char>>,
    queue_after: Seq<(String, usize)>,
)
    requires
        records(found, head, visited, queue),
        found.len() < cap && !visited.contains(name) ==> visited_after == visited.insert(name)
            && queue_views(queue_after) == queue_views(queue).push((name, depth)),
        !(found.len() < cap && !visited.contains(name)) ==> visited_after == visited && queue_after
            == queue,
    ensures
        records(walk::offer(found, name, depth, cap), head, visited_after, queue_after),
        visited.contains(name) == walk::seen(found, name),
{
    let after = walk::offer(found, name, depth, cap);
    if found.len() < cap && !walk::seen(found, name) {
        assert(walk::names_of(after) =~= walk::names_of(found).push(name));
        assert(visited_after =~= walk::names_of(after).to_set());
        assert(queue_views(queue_after) =~= after.skip(head));
        assert(walk::names_of(after).no_duplicates()) by {
            assert forall|i: int, j: int| 0 <= i < walk::names_of(after).len() && 0 <= j < walk::names_of(
                after,
            ).len() && i != j implies walk::names_of(after)[i] != walk::names_of(after)[j] by {
                if i < walk::names_of(found).len() && j < walk::names_of(found).len() {
                    assert(walk::names_of(found)[i] != walk::names_of(found)[j]);
                } else if i < walk::names_of(found).len() {
                    assert(walk::names_of(found).contains(walk::names_of(found)[i]));
                } else {
                    assert(walk::names_of(found).contains(walk::names_of(found)[j]));
                }
            }
        }
    }
}

/// The names of a list of strings.
pub open spec fn name_views(names: Seq<String>) -> Seq<Seq<char>> {
    names.map_values(|n: String| n@)
}

/// The views of a list of edges given as source, label and destination.
pub open spec fn triple_views(edges: Seq<(String, String, String)>) -> Seq<EdgeView> {
    edges.map_values(
        |e: (String, String, String)| EdgeView { src: e.0@, label: e.1@, dst: e.2@ },
    )
}

impl CsrIndex {
    /// Enqueues `name` at `next_depth` if it is newly visited and the visited cap has not been
    /// reached. Returns whether it was newly enqueued, which callers that must report discovery
    /// order use to append to their order vector.
    fn enqueue_str(
        &self,
        name: &str,
        next_depth: usize,
        max_visited: usize,
        visited: &mut StringHashSet,
        queue: &mut VecDeque<(String, usize)>,
    ) -> (enqueued: bool)
        ensures
            enqueued == (old(visited)@.len() < max_visited && !old(visited)@.contains(name@)),
            final(visited)@ == (if enqueued {
                old(visited)@.insert(name@)
            } else {
                old(visited)@
            }),
            enqueued ==> queue_views(final(queue)@) == queue_views(old(queue)@).push(
                (name@, next_depth as nat),
            ),
            !enqueued ==> final(queue)@ == old(queue)@,
    {
        if visited.len() < max_visited && visited.insert(name.to_owned()) {
            let ghost before = queue@;
            queue.push_back((name.to_owned(), next_depth));
            assert(queue_views(queue@) =~= queue_views(before).push((name@, next_depth as nat)));
            return true;
        }
        proof {
            assert(old(visited)@.contains(name@) ==> old(visited)@.insert(name@) =~= old(visited)@);
        }
        false
    }

    /// Marks each start node visited, once, at depth zero.
    fn enqueue_starts(
        &self,
        start_nodes: &[&str],
        visited: &mut StringHashSet,
        queue: &mut VecDeque<(String, usize)>,
        discovered: &mut Vec<String>,
    )
        requires
            old(visited)@ == Set::<Seq<char>>::empty(),
            old(queue)@.len() == 0,
            old(discovered)@.len() == 0,
        ensures
            records(walk::seeds(start_names(start_nodes@)), 0, final(visited)@, final(queue)@),
            name_views(final(discovered)@) == walk::names_of(walk::seeds(start_names(start_nodes@))),
    {
        let ghost starts = start_names(start_nodes@);
        let ghost mut found: Seq<Visit> = Seq::empty();
        let mut i: usize = 0;
        proof {
            assert(walk::names_of(found) =~= Seq::empty());
            assert(visited@ =~= walk::names_of(found).to_set());
            assert(queue_views(queue@) =~= found.skip(0));
            assert(name_views(discovered@) =~= walk::names_of(found));
            assert(starts.take(0) =~= Seq::empty());
        }
        while i < start_nodes.len()
            invariant
                i <= start_nodes@.len(),
                starts == start_names(start_nodes@),
                found == walk::seeds(starts.take(i as int)),
                records(found, 0, visited@, queue@),
                name_views(discovered@) == walk::names_of(found),
            decreases start_nodes@.len() - i,
        {
            let node = start_nodes[i];
            assert(starts[i as int] == node@);
            assert(starts.take(i + 1).drop_last() =~= starts.take(i as int));
            assert(starts.take(i + 1).last() == node@);
            let ghost visited_before = visited@;
            let ghost queue_before = queue@;
            let ghost discovered_before = discovered@;
            if visited.insert(node.to_owned()) {
                discovered.push(node.to_owned());
                queue.push_back((node.to_owned(), 0));
                assert(queue_views(queue@) =~= queue_views(queue_before).push((node@, 0nat)));
                assert(name_views(discovered@) =~= name_views(discovered_before).push(node@));
            } else {
                assert(visited@ =~= visited_before);
            }
            proof {
                lemma_records_offer(
                    found,
                    0,
                    visited_before,
                    queue_before,
                    node@,
                    0,
                    found.len() + 1,
                    visited@,
                    queue@,
                );
                let next = walk::seeds(starts.take(i + 1));
                assert(next == walk::offer(found, node@, 0, found.len() + 1));
                assert(walk::names_of(next) =~= (if walk::seen(found, node@) {
                    walk::names_of(found)
                } else {
                    walk::names_of(found).push(node@)
                }));
                found = next;
            }
            i += 1;
        }
        assert(starts.take(i as int) =~= starts);
    }

    /// Breadth-first search that merges the transaction's staged edges and tombstones.
    ///
    /// Returns nodes in the order in which they are discovered.
    pub(crate) fn traverse_bfs_overlay(
        &self,
        params: BfsParams<'_>,
        overlay: &GraphOverlayDelta,
    ) -> (r: Vec<String>)
        requires
            self.wf(),
        ensures
            name_views(r@) == walk::names_of(
                walk_of(self@, params, overlay@).visits(start_names(params.start_nodes@)),
            ),
    {
        let ghost walk = walk_of(self@, params, overlay@);
        let ghost starts = start_names(params.start_nodes@);
        let mut visited = StringHashSet::new();
        let mut discovered: Vec<String> = Vec::new();
        let mut queue: VecDeque<(String, usize)> = VecDeque::new();
        self.enqueue_starts(params.start_nodes, &mut visited, &mut queue, &mut discovered);
        let ghost mut found: Seq<Visit> = walk::seeds(starts);
        let ghost mut head: nat = 0;
        loop
            invariant
                self.wf(),
                walk == walk_of(self@, params, overlay@),
                starts == start_names(params.start_nodes@),
                records(found, head as int, visited@, queue@),
                name_views(discovered@) == walk::names_of(found),
                walk.run(found, head) == walk.visits(starts),
            decreases
                (if walk.max_visited > found.len() { walk.max_visited as int } else {
                    found.len() as int
                }) - head,
        {
            let ghost queue_before = queue@;
            let (node, depth) = match queue.pop_front() {
                Some(next) => next,
                None => {
                    assert(queue_views(queue_before).len() == 0);
                    assert(head >= found.len());
                    return discovered;
                },
            };
            proof {
                assert(queue_views(queue_before)[0] == (node@, depth as nat));
                assert(found[head as int] == (node@, depth as nat));
                assert(queue_views(queue@) =~= found.skip(head as int + 1)) by {
                    assert(queue_views(queue@) =~= queue_views(queue_before).drop_first());
                }
                lemma_records_len(found, visited@);
                walk::lemma_offer_all_len(found, walk.hops(node@), depth as nat + 1, walk.max_visited);
            }
            let ghost before = found;
            if depth < params.max_depth && visited.len() < params.max_visited {
                let next_depth = depth + 1;
                let hops = self.hops_from(&params, overlay, node.as_str());
                let ghost all = hop_views(hops@);
                let mut i: usize = 0;
                assert(all.take(0) =~= Seq::empty());
                while i < hops.len()
                    invariant
                        i <= hops@.len(),
                        all == hop_views(hops@),
                        walk.max_visited == params.max_visited,
                        found == walk::offer_all(
                            before,
                            all.take(i as int),
                            next_depth as nat,
                            walk.max_visited,
                        ),
                        records(found, head as int + 1, visited@, queue@),
                        name_views(discovered@) == walk::names_of(found),
                    decreases hops@.len() - i,
                {
                    let peer = hops[i].peer();
                    assert(all[i as int] == hops@[i as int]@);
                    assert(all.take(i + 1).drop_last() =~= all.take(i as int));
                    let ghost visited_before = visited@;
                    let ghost queue_then = queue@;
                    let ghost discovered_before = discovered@;
                    proof {
                        lemma_records_len(found, visited@);
                    }
                    if self.enqueue_str(
                        peer,
                        next_depth,
                        params.max_visited,
                        &mut visited,
                        &mut queue,
                    ) {
                        discovered.push(peer.to_owned());
                        assert(name_views(discovered@) =~= name_views(discovered_before).push(
                            peer@,
                        ));
                    }
                    proof {
                        lemma_records_offer(
                            found,
                            head as int + 1,
                            visited_before,
                            queue_then,
                            peer@,
                            next_depth as nat,
                            walk.max_visited,
                            visited@,
                            queue@,
                        );
                        let next = walk::offer(found, peer@, next_depth as nat, walk.max_visited);
                        if found.len() < walk.max_visited && !walk::seen(found, peer@) {
                            assert(walk::names_of(next) =~= walk::names_of(found).push(peer@));
                        }
                        found = next;
                    }
                    i += 1;
                }
                assert(all.take(i as int) =~= all);
            }
            proof {
                assert(found == walk.expand(before, head as int));
                head = head + 1;
            }
        }
    }
}

impl CsrIndex {
    /// The edges around `start_nodes`, with the transaction's staged edges and tombstones merged:
    /// every edge that the traversal looks at, in the order in which it does.
    pub(crate) fn subgraph_overlay(
        &self,
        start_nodes: &[&str],
        label_filter: Option<&str>,
        direction: Direction,
        max_depth: usize,
        max_visited: usize,
        overlay: &GraphOverlayDelta,
    ) -> (r: Vec<(String, String, String)>)
        requires
            self.wf(),
        ensures
            triple_views(r@) == walk_of(
                self@,
                (BfsParams {
                    start_nodes,
                    label_filter,
                    direction,
                    max_depth,
                    max_visited,
                    frontier_bitmap: None,
                }),
                overlay@,
            ).edges(start_names(start_nodes@)),
    {
        let params = BfsParams {
            start_nodes,
            label_filter,
            direction,
            max_depth,
            max_visited,
            frontier_bitmap: None,
        };
        let ghost walk = walk_of(self@, params, overlay@);
        let ghost starts = start_names(start_nodes@);
        let mut visited = StringHashSet::new();
        let mut names: Vec<String> = Vec::new();
        let mut queue: VecDeque<(String, usize)> = VecDeque::new();
        let mut edges: Vec<(String, String, String)> = Vec::new();
        self.enqueue_starts(start_nodes, &mut visited, &mut queue, &mut names);
        let ghost mut found: Seq<Visit> = walk::seeds(starts);
        let ghost mut head: nat = 0;
        assert(triple_views(edges@) + walk.edges_from(found, head) =~= walk.edges(starts));
        loop
            invariant
                self.wf(),
                walk == walk_of(self@, params, overlay@),
                params == (BfsParams {
                    start_nodes,
                    label_filter,
                    direction,
                    max_depth,
                    max_visited,
                    frontier_bitmap: None,
                }),
                starts == start_names(start_nodes@),
                records(found, head as int, visited@, queue@),
                triple_views(edges@) + walk.edges_from(found, head) == walk.edges(starts),
            decreases
                (if walk.max_visited > found.len() { walk.max_visited as int } else {
                    found.len() as int
                }) - head,
        {
            let ghost queue_before = queue@;
            let (node, depth) = match queue.pop_front() {
                Some(next) => next,
                None => {
                    assert(queue_views(queue_before).len() == 0);
                    assert(head >= found.len());
                    assert(triple_views(edges@) =~= walk.edges(starts));
                    return edges;
                },
            };
            proof {
                assert(queue_views(queue_before)[0] == (node@, depth as nat));
                assert(found[head as int] == (node@, depth as nat));
                assert(queue_views(queue@) =~= found.skip(head as int + 1)) by {
                    assert(queue_views(queue@) =~= queue_views(queue_before).drop_first());
                }
                lemma_records_len(found, visited@);
                walk::lemma_offer_all_len(found, walk.hops(node@), depth as nat + 1, walk.max_visited);
            }
            let ghost before = found;
            let ghost edges_before = triple_views(edges@);
            let ghost all = walk.hops(node@);
            assert(walk::edges_of(all.take(0)) =~= Seq::empty());
            if depth < max_depth && visited.len() < max_visited {
                let next_depth = depth + 1;
                let hops = self.hops_from(&params, overlay, node.as_str());
                let mut i: usize = 0;
                assert(all.take(0) =~= Seq::empty());
                assert(edges_before =~= edges_before + walk::edges_of(all.take(0)));
                while i < hops.len()
                    invariant
                        i <= hops@.len(),
                        all == hop_views(hops@),
                        walk.max_visited == max_visited,
                        found == walk::offer_all(
                            before,
                            all.take(i as int),
                            next_depth as nat,
                            walk.max_visited,
                        ),
                        records(found, head as int + 1, visited@, queue@),
                        triple_views(edges@) == edges_before + walk::edges_of(all.take(i as int)),
                    decreases hops@.len() - i,
                {
                    let edge = &hops[i].edge;
                    let peer = hops[i].peer();
                    assert(all[i as int] == hops@[i as int]@);
                    assert(all.take(i + 1).drop_last() =~= all.take(i as int));
                    let ghost edges_then = edges@;
                    edges.push((edge.src.clone(), edge.label.clone(), edge.dst.clone()));
                    assert(triple_views(edges@) =~= triple_views(edges_then).push(edge@));
                    assert(walk::edges_of(all.take(i + 1)) =~= walk::edges_of(all.take(i as int)).push(edge@));
                    assert(triple_views(edges@) =~= edges_before + walk::edges_of(all.take(i + 1)));
                    let ghost visited_before = visited@;
                    let ghost queue_then = queue@;
                    proof {
                        lemma_records_len(found, visited@);
                    }
                    self.enqueue_str(peer, next_depth, max_visited, &mut visited, &mut queue);
                    proof {
                        lemma_records_offer(
                            found,
                            head as int + 1,
                            visited_before,
                            queue_then,
                            peer@,
                            next_depth as nat,
                            walk.max_visited,
                            visited@,
                            queue@,
                        );
                        found = walk::offer(found, peer@, next_depth as nat, walk.max_visited);
                    }
                    i += 1;
                }
                assert(all.take(i as int) =~= all);
            }
            proof {
                assert(found == walk.expand(before, head as int));
                head = head + 1;
                assert(triple_views(edges@) + walk.edges_from(found, head) =~= edges_before
                    + walk.edges_from(before, (head - 1) as nat));
            }
        }
    }

    /// Breadth-first traversal of the durable graph, with the writes of an open transaction merged
    /// where there is one. Returns nodes in the order in which they are discovered, nearest first.
    pub fn traverse_bfs(
        &self,
        params: BfsParams<'_>,
        overlay: Option<&GraphOverlayDelta>,
    ) -> (r: Vec<String>)
        requires
            self.wf(),
        ensures
            name_views(r@) == walk::names_of(
                walk_of(self@, params, writes_of(overlay)).visits(start_names(params.start_nodes@)),
            ),
    {
        match overlay {
            Some(delta) => self.traverse_bfs_overlay(params, delta),
            None => {
                let delta = GraphOverlayDelta::new();
                assert(delta@ == no_writes());
                self.traverse_bfs_overlay(params, &delta)
            },
        }
    }

    /// The edges around `start_nodes`, with the writes of an open transaction merged where there is
    /// one.
    pub fn subgraph(
        &self,
        start_nodes: &[&str],
        label_filter: Option<&str>,
        direction: Direction,
        max_depth: usize,
        max_visited: usize,
        overlay: Option<&GraphOverlayDelta>,
    ) -> (r: Vec<(String, String, String)>)
        requires
            self.wf(),
        ensures
            triple_views(r@) == walk_of(
                self@,
                (BfsParams {
                    start_nodes,
                    label_filter,
                    direction,
                    max_depth,
                    max_visited,
                    frontier_bitmap: None,
                }),
                writes_of(overlay),
            ).edges(start_names(start_nodes@)),
    {
        match overlay {
            Some(delta) => self.subgraph_overlay(
                start_nodes,
                label_filter,
                direction,
                max_depth,
                max_visited,
                delta,
            ),
            None => {
                let delta = GraphOverlayDelta::new();
                assert(delta@ == no_writes());
                self.subgraph_overlay(
                    start_nodes,
                    label_filter,
                    direction,
                    max_depth,
                    max_visited,
                    &delta,
                )
            },
        }
    }
}

/// The view of a transaction that has written nothing.
pub open spec fn no_writes() -> DeltaView {
    DeltaView { staged: Seq::empty(), tombstones: Set::empty() }
}

/// What an open transaction has staged; nothing where none is open.
pub open spec fn writes_of(overlay: Option<&GraphOverlayDelta>) -> DeltaView {
    match overlay {
        Some(delta) => delta@,
        None => no_writes(),
    }
}

} // verus!
