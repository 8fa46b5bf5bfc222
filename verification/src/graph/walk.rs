//! The mathematical model of a traversal: which edges a walk may follow from a node, and the
//! breadth-first order in which it finds nodes.

use vstd::prelude::*;

verus! {

/// Which edges of a node a traversal follows.
#[derive(Debug, Clone, Copy, PartialEq, Eq, Structural)]
pub enum Direction {
    Out,
    In,
    Both,
}

impl Direction {
    /// Whether edges that leave a node are followed.
    pub open spec fn follows_out(self) -> bool {
        self is Out || self is Both
    }

    /// Whether edges that enter a node are followed, against their direction.
    pub open spec fn follows_in(self) -> bool {
        self is In || self is Both
    }
}

/// A directed, labelled edge.
pub struct EdgeView {
    pub src: Seq<char>,
    pub label: Seq<char>,
    pub dst: Seq<char>,
}

/// One entry of a node's adjacency list: the edge's label and the node at its other end.
pub struct HalfEdge {
    pub label: Seq<char>,
    pub peer: Seq<char>,
}

/// What a durable index holds.
pub struct GraphView {
    pub labels: Set<Seq<char>>,
    pub out_edges: Map<Seq<char>, Seq<HalfEdge>>,
    pub in_edges: Map<Seq<char>, Seq<HalfEdge>>,
    pub surrogates: Map<Seq<char>, u32>,
}

impl GraphView {
    /// The edges that leave `node`, oldest first; none for a node that the index does not know.
    pub open spec fn out_of(self, node: Seq<char>) -> Seq<HalfEdge> {
        if self.out_edges.contains_key(node) {
            self.out_edges[node]
        } else {
            Seq::empty()
        }
    }

    /// The edges that enter `node`, oldest first; none for a node that the index does not know.
    pub open spec fn in_to(self, node: Seq<char>) -> Seq<HalfEdge> {
        if self.in_edges.contains_key(node) {
            self.in_edges[node]
        } else {
            Seq::empty()
        }
    }

    /// The surrogate of `node`, zero where none was bound.
    pub open spec fn surrogate_of(self, node: Seq<char>) -> u32 {
        if self.surrogates.contains_key(node) {
            self.surrogates[node]
        } else {
            0
        }
    }
}

/// What a transaction has staged: edges it added, in order, and durable edges it removed.
pub struct DeltaView {
    pub staged: Seq<EdgeView>,
    pub tombstones: Set<EdgeView>,
}

/// The test that every edge but `e` passes.
pub open spec fn any_but(e: EdgeView) -> spec_fn(EdgeView) -> bool {
    |x: EdgeView| x != e
}

impl DeltaView {
    /// The writes after the edge `e` was added: a tombstone of it is undone.
    pub open spec fn staging(self, e: EdgeView) -> DeltaView {
        DeltaView {
            staged: if self.staged.contains(e) {
                self.staged
            } else {
                self.staged.push(e)
            },
            tombstones: self.tombstones.remove(e),
        }
    }

    /// The writes after the edge `e` was removed: a staging of it is undone.
    pub open spec fn tombstoning(self, e: EdgeView) -> DeltaView {
        DeltaView {
            staged: self.staged.filter(any_but(e)),
            tombstones: self.tombstones.insert(e),
        }
    }
}

/// A node that a traversal has found, with the number of hops at which it was found.
pub type Visit = (Seq<char>, nat);

/// One step of a walk: the edge followed and the node it leads to.
pub struct Hop {
    pub edge: EdgeView,
    pub peer: Seq<char>,
}

/// Everything that decides a traversal, except the nodes it starts from.
pub struct Walk {
    pub graph: GraphView,
    pub delta: DeltaView,
    pub label: Option<Seq<char>>,
    pub direction: Direction,
    pub max_depth: nat,
    pub max_visited: nat,
    pub admitted: Option<Set<u32>>,
}

/// The edge that the adjacency entry `h` of `node` stands for, when it leaves `node`.
pub open spec fn out_edge(node: Seq<char>, h: HalfEdge) -> EdgeView {
    EdgeView { src: node, label: h.label, dst: h.peer }
}

/// The edge that the adjacency entry `h` of `node` stands for, when it enters `node`.
pub open spec fn in_edge(node: Seq<char>, h: HalfEdge) -> EdgeView {
    EdgeView { src: h.peer, label: h.label, dst: node }
}

impl Walk {
    /// Whether a durable edge with this label is followed. A label filter that names no label of
    /// the index restricts nothing.
    pub open spec fn durable_label_passes(self, label: Seq<char>) -> bool {
        match self.label {
            None => true,
            Some(wanted) => !self.graph.labels.contains(wanted) || label == wanted,
        }
    }

    /// Whether a staged edge with this label is followed.
    pub open spec fn staged_label_passes(self, label: Seq<char>) -> bool {
        match self.label {
            None => true,
            Some(wanted) => label == wanted,
        }
    }

    /// Whether the frontier bitmap, if there is one, holds the node's surrogate.
    pub open spec fn admits(self, node: Seq<char>) -> bool {
        match self.admitted {
            None => true,
            Some(surrogates) => surrogates.contains(self.graph.surrogate_of(node)),
        }
    }

    /// Whether the durable edge `e` is followed to the node `peer`.
    pub open spec fn durable_passes(self, e: EdgeView, peer: Seq<char>) -> bool {
        &&& self.durable_label_passes(e.label)
        &&& !self.delta.tombstones.contains(e)
        &&& self.admits(peer)
    }

    pub open spec fn durable_out(self, node: Seq<char>) -> Seq<Hop> {
        self.graph.out_of(node).filter(
            |h: HalfEdge| self.durable_passes(out_edge(node, h), h.peer),
        ).map_values(|h: HalfEdge| Hop { edge: out_edge(node, h), peer: h.peer })
    }

    pub open spec fn durable_in(self, node: Seq<char>) -> Seq<Hop> {
        self.graph.in_to(node).filter(
            |h: HalfEdge| self.durable_passes(in_edge(node, h), h.peer),
        ).map_values(|h: HalfEdge| Hop { edge: in_edge(node, h), peer: h.peer })
    }

    pub open spec fn staged_out(self, node: Seq<char>) -> Seq<Hop> {
        self.delta.staged.filter(
            |e: EdgeView| e.src == node && self.staged_label_passes(e.label),
        ).map_values(|e: EdgeView| Hop { edge: e, peer: e.dst })
    }

    pub open spec fn staged_in(self, node: Seq<char>) -> Seq<Hop> {
        self.delta.staged.filter(
            |e: EdgeView| e.dst == node && self.staged_label_passes(e.label),
        ).map_values(|e: EdgeView| Hop { edge: e, peer: e.src })
    }

    /// The steps that the walk may take from `node`, in the order in which it takes them: durable
    /// edges before staged ones, and edges that leave before edges that enter.
    pub open spec fn hops(self, node: Seq<char>) -> Seq<Hop> {
        let none = Seq::<Hop>::empty();
        (if self.direction.follows_out() { self.durable_out(node) } else { none })
            + (if self.direction.follows_in() { self.durable_in(node) } else { none })
            + (if self.direction.follows_out() { self.staged_out(node) } else { none })
            + (if self.direction.follows_in() { self.staged_in(node) } else { none })
    }

    /// Whether the walk goes on from the visit `v` when `found` nodes have been found so far.
    pub open spec fn goes_on(self, v: Visit, found: nat) -> bool {
        v.1 < self.max_depth && found < self.max_visited
    }

    /// What has been found once the node at `head` has been dealt with.
    pub open spec fn expand(self, found: Seq<Visit>, head: int) -> Seq<Visit> {
        if self.goes_on(found[head], found.len()) {
            offer_all(found, self.hops(found[head].0), found[head].1 + 1, self.max_visited)
        } else {
            found
        }
    }

    /// What the walk has found at its end, when it has dealt with the first `head` of `found`.
    pub open spec fn run(self, found: Seq<Visit>, head: nat) -> Seq<Visit>
        decreases
            (if self.max_visited > found.len() { self.max_visited as int } else {
                found.len() as int
            }) - head,
    {
        if head >= found.len() {
            found
        } else {
            proof {
                if self.goes_on(found[head as int], found.len()) {
                    lemma_offer_all_len(
                        found,
                        self.hops(found[head as int].0),
                        found[head as int].1 + 1,
                        self.max_visited,
                    );
                }
            }
            self.run(self.expand(found, head as int), head + 1)
        }
    }

    /// The nodes that the walk finds from `starts`, with the depth of each, in the order found.
    pub open spec fn visits(self, starts: Seq<Seq<char>>) -> Seq<Visit> {
        self.run(seeds(starts), 0)
    }

    /// The edges that the walk looks at from the node at `head` on.
    pub open spec fn edges_from(self, found: Seq<Visit>, head: nat) -> Seq<EdgeView>
        decreases
            (if self.max_visited > found.len() { self.max_visited as int } else {
                found.len() as int
            }) - head,
    {
        if head >= found.len() {
            Seq::empty()
        } else {
            proof {
                if self.goes_on(found[head as int], found.len()) {
                    lemma_offer_all_len(
                        found,
                        self.hops(found[head as int].0),
                        found[head as int].1 + 1,
                        self.max_visited,
                    );
                }
            }
            (if self.goes_on(found[head as int], found.len()) {
                edges_of(self.hops(found[head as int].0))
            } else {
                Seq::empty()
            }) + self.edges_from(self.expand(found, head as int), head + 1)
        }
    }

    /// The edges that the walk looks at from `starts` on, in the order in which it does.
    pub open spec fn edges(self, starts: Seq<Seq<char>>) -> Seq<EdgeView> {
        self.edges_from(seeds(starts), 0)
    }
}

/// The edges of a sequence of steps.
pub open spec fn edges_of(hops: Seq<Hop>) -> Seq<EdgeView> {
    hops.map_values(|h: Hop| h.edge)
}

/// The nodes of a sequence of visits.
pub open spec fn names_of(found: Seq<Visit>) -> Seq<Seq<char>> {
    found.map_values(|v: Visit| v.0)
}

/// Whether `name` has been found.
pub open spec fn seen(found: Seq<Visit>, name: Seq<char>) -> bool {
    names_of(found).contains(name)
}

/// What has been found after `name` was offered at `depth`: it joins when it is new and fewer than
/// `cap` nodes have been found.
pub open spec fn offer(found: Seq<Visit>, name: Seq<char>, depth: nat, cap: nat) -> Seq<Visit> {
    if found.len() < cap && !seen(found, name) {
        found.push((name, depth))
    } else {
        found
    }
}

/// What has been found after the ends of `hops` were offered in turn.
pub open spec fn offer_all(found: Seq<Visit>, hops: Seq<Hop>, depth: nat, cap: nat) -> Seq<Visit>
    decreases hops.len(),
{
    if hops.len() == 0 {
        found
    } else {
        offer(offer_all(found, hops.drop_last(), depth, cap), hops.last().peer, depth, cap)
    }
}

/// The visits a walk begins with: each start node once, at depth zero, whatever the cap.
pub open spec fn seeds(starts: Seq<Seq<char>>) -> Seq<Visit>
    decreases starts.len(),
{
    if starts.len() == 0 {
        Seq::empty()
    } else {
        let before = seeds(starts.drop_last());
        if seen(before, starts.last()) {
            before
        } else {
            before.push((starts.last(), 0nat))
        }
    }
}

/// Offering nodes drops none, and grows what has been found to the cap at most.
pub proof fn lemma_offer_all_len(found: Seq<Visit>, hops: Seq<Hop>, depth: nat, cap: nat)
    ensures
        found.len() <= offer_all(found, hops, depth, cap).len(),
        offer_all(found, hops, depth, cap).len() <= found.len() || offer_all(
            found,
            hops,
            depth,
            cap,
        ).len() <= cap,
    decreases hops.len(),
{
    if hops.len() > 0 {
        lemma_offer_all_len(found, hops.drop_last(), depth, cap);
    }
}

} // verus!
