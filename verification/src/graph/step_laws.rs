//! What the steps of a walk are, and in which order it takes them.

use vstd::prelude::*;

use super::csr::CsrIndex;
use super::laws;
use super::overlay_delta;
use super::overlay_delta::GraphOverlayDelta;
use super::traversal_overlay;
use super::traversal_overlay::BfsParams;
use super::walk;
use super::walk::{DeltaView, Direction, EdgeView, GraphView, HalfEdge, Hop, Visit, Walk};

verus! {

/// Whether a step from `node` along the durable edge `e` to `peer` is one that the walk may take.
pub open spec fn durable_step(w: Walk, node: Seq<char>, e: EdgeView, peer: Seq<char>) -> bool {
    &&& (w.direction == Direction::Out || w.direction == Direction::Both) && e.src == node && e.dst
        == peer && laws::leaves(w.graph, e) || (w.direction == Direction::In || w.direction
        == Direction::Both) && e.dst == node && e.src == peer && laws::enters(w.graph, e)
    &&& laws::wants_durable(w, e.label)
    &&& !w.delta.tombstones.contains(e)
    &&& laws::lets_in(w, peer)
}

/// Whether a step from `node` along the staged edge `e` to `peer` is one that the walk may take.
pub open spec fn staged_step(w: Walk, node: Seq<char>, e: EdgeView, peer: Seq<char>) -> bool {
    &&& (w.direction == Direction::Out || w.direction == Direction::Both) && e.src == node && e.dst
        == peer || (w.direction == Direction::In || w.direction == Direction::Both) && e.dst == node
        && e.src == peer
    &&& w.delta.staged.contains(e)
    &&& laws::wants_staged(w, e.label)
}

proof fn lemma_filter_map<A>(s: Seq<A>, p: spec_fn(A) -> bool, f: spec_fn(A) -> Hop, x: Hop)
    ensures
        s.filter(p).map_values(f).contains(x) <==> exists|a: A| #[trigger]
            s.contains(a) && p(a) && f(a) == x,
{
    let kept = s.filter(p);
    let all = kept.map_values(f);
    if all.contains(x) {
        let i = choose|i: int| 0 <= i < all.len() && all[i] == x;
        overlay_delta::lemma_filter_membership(s, p, kept[i]);
        assert(kept.contains(kept[i]));
        assert(s.contains(kept[i]));
    }
    if exists|a: A| #[trigger] s.contains(a) && p(a) && f(a) == x {
        let a = choose|a: A| #[trigger] s.contains(a) && p(a) && f(a) == x;
        overlay_delta::lemma_filter_membership(s, p, a);
        let i = choose|i: int| 0 <= i < kept.len() && kept[i] == a;
        assert(all[i] == x);
    }
}

proof fn lemma_joined(a: Seq<Hop>, b: Seq<Hop>, c: Seq<Hop>, d: Seq<Hop>, x: Hop)
    ensures
        (a + b + c + d).contains(x) <==> a.contains(x) || b.contains(x) || c.contains(x)
            || d.contains(x),
{
    let all = a + b + c + d;
    if all.contains(x) {
        let i = choose|i: int| 0 <= i < all.len() && all[i] == x;
        if i < a.len() {
            assert(a[i] == x);
        } else if i < a.len() + b.len() {
            assert(b[i - a.len()] == x);
        } else if i < a.len() + b.len() + c.len() {
            assert(c[i - a.len() - b.len()] == x);
        } else {
            assert(d[i - a.len() - b.len() - c.len()] == x);
        }
    }
    if a.contains(x) {
        let i = choose|i: int| 0 <= i < a.len() && a[i] == x;
        assert(all[i] == x);
    }
    if b.contains(x) {
        let i = choose|i: int| 0 <= i < b.len() && b[i] == x;
        assert(all[a.len() + i] == x);
    }
    if c.contains(x) {
        let i = choose|i: int| 0 <= i < c.len() && c[i] == x;
        assert(all[a.len() + b.len() + i] == x);
    }
    if d.contains(x) {
        let i = choose|i: int| 0 <= i < d.len() && d[i] == x;
        assert(all[a.len() + b.len() + c.len() + i] == x);
    }
}

proof fn lemma_durable_out(w: Walk, node: Seq<char>, x: Hop)
    ensures
        w.durable_out(node).contains(x) <==> {
            &&& x.edge.src == node && x.peer == x.edge.dst && laws::leaves(w.graph, x.edge)
            &&& laws::wants_durable(w, x.edge.label)
            &&& !w.delta.tombstones.contains(x.edge)
            &&& laws::lets_in(w, x.peer)
        },
{
    let p = |h: HalfEdge| w.durable_passes(walk::out_edge(node, h), h.peer);
    let f = |h: HalfEdge| Hop { edge: walk::out_edge(node, h), peer: h.peer };
    let list = w.graph.out_of(node);
    lemma_filter_map(list, p, f, x);
    let h = HalfEdge { label: x.edge.label, peer: x.peer };
    if w.durable_out(node).contains(x) {
        let a = choose|a: HalfEdge| #[trigger] list.contains(a) && p(a) && f(a) == x;
        assert(a == h);
    }
    if list.contains(h) && p(h) && f(h) == x {
        assert(w.durable_out(node).contains(x));
    }
}

proof fn lemma_durable_in(w: Walk, node: Seq<char>, x: Hop)
    ensures
        w.durable_in(node).contains(x) <==> {
            &&& x.edge.dst == node && x.peer == x.edge.src && laws::enters(w.graph, x.edge)
            &&& laws::wants_durable(w, x.edge.label)
            &&& !w.delta.tombstones.contains(x.edge)
            &&& laws::lets_in(w, x.peer)
        },
{
    let p = |h: HalfEdge| w.durable_passes(walk::in_edge(node, h), h.peer);
    let f = |h: HalfEdge| Hop { edge: walk::in_edge(node, h), peer: h.peer };
    let list = w.graph.in_to(node);
    lemma_filter_map(list, p, f, x);
    let h = HalfEdge { label: x.edge.label, peer: x.peer };
    if w.durable_in(node).contains(x) {
        let a = choose|a: HalfEdge| #[trigger] list.contains(a) && p(a) && f(a) == x;
        assert(a == h);
    }
    if list.contains(h) && p(h) && f(h) == x {
        assert(w.durable_in(node).contains(x));
    }
}

proof fn lemma_staged(w: Walk, node: Seq<char>, x: Hop)
    ensures
        w.staged_out(node).contains(x) <==> x.edge.src == node && x.peer == x.edge.dst
            && w.delta.staged.contains(x.edge) && laws::wants_staged(w, x.edge.label),
        w.staged_in(node).contains(x) <==> x.edge.dst == node && x.peer == x.edge.src
            && w.delta.staged.contains(x.edge) && laws::wants_staged(w, x.edge.label),
{
    let list = w.delta.staged;
    let p = |e: EdgeView| e.src == node && w.staged_label_passes(e.label);
    let f = |e: EdgeView| Hop { edge: e, peer: e.dst };
    lemma_filter_map(list, p, f, x);
    let q = |e: EdgeView| e.dst == node && w.staged_label_passes(e.label);
    let g = |e: EdgeView| Hop { edge: e, peer: e.src };
    lemma_filter_map(list, q, g, x);
    if list.contains(x.edge) && p(x.edge) && f(x.edge) == x {
        assert(w.staged_out(node).contains(x));
    }
    if list.contains(x.edge) && q(x.edge) && g(x.edge) == x {
        assert(w.staged_in(node).contains(x));
    }
}

/// The steps from a node are those along its durable edges that the label filter, the removals and
/// the frontier bitmap leave, and those along its added edges that the label filter leaves, in the
/// directions asked for; there are no others.
pub proof fn law_what_the_steps_are(w: Walk, node: Seq<char>, e: EdgeView, peer: Seq<char>)
    ensures
        w.hops(node).contains(Hop { edge: e, peer }) <==> durable_step(w, node, e, peer)
            || staged_step(w, node, e, peer),
{
    let x = Hop { edge: e, peer };
    let none = Seq::<Hop>::empty();
    let a = if w.direction.follows_out() { w.durable_out(node) } else { none };
    let b = if w.direction.follows_in() { w.durable_in(node) } else { none };
    let c = if w.direction.follows_out() { w.staged_out(node) } else { none };
    let d = if w.direction.follows_in() { w.staged_in(node) } else { none };
    assert(w.hops(node) == a + b + c + d);
    lemma_joined(a, b, c, d, x);
    lemma_durable_out(w, node, x);
    lemma_durable_in(w, node, x);
    lemma_staged(w, node, x);
    assert(!none.contains(x));
}

/// Where a walk wants a label that the index knows, every edge that it follows and every edge of its
/// subgraph has that label and no other.
pub proof fn law_the_label_filter_holds(w: Walk, l: Seq<char>, starts: Seq<Seq<char>>)
    requires
        w.label == Some(l),
        w.graph.labels.contains(l),
    ensures
        forall|node: Seq<char>, i: int|
            0 <= i < w.hops(node).len() ==> (#[trigger] w.hops(node)[i]).edge.label == l,
        forall|k: int| 0 <= k < w.edges(starts).len() ==> (#[trigger] w.edges(starts)[k]).label == l,
{
    assert forall|node: Seq<char>, i: int| 0 <= i < w.hops(node).len() implies (
    #[trigger] w.hops(node)[i]).edge.label == l by {
        let hop = w.hops(node)[i];
        assert(w.hops(node).contains(Hop { edge: hop.edge, peer: hop.peer }));
        law_what_the_steps_are(w, node, hop.edge, hop.peer);
    }
    assert forall|k: int| 0 <= k < w.edges(starts).len() implies (
    #[trigger] w.edges(starts)[k]).label == l by {
        laws::law_subgraph_edges_are_visible(w, starts, k);
    }
}

/// A label that the index does not know restricts no durable edge: the walk takes the durable steps
/// that it takes without a label.
pub proof fn law_unknown_labels_restrict_no_durable_edge(
    w: Walk,
    l: Seq<char>,
    node: Seq<char>,
    e: EdgeView,
    peer: Seq<char>,
)
    requires
        w.label == Some(l),
        !w.graph.labels.contains(l),
        w.delta.staged.len() == 0,
    ensures
        w.hops(node).contains(Hop { edge: e, peer }) <==> (Walk { label: None, ..w }).hops(
            node,
        ).contains(Hop { edge: e, peer }),
{
    let free = Walk { label: None, ..w };
    law_what_the_steps_are(w, node, e, peer);
    law_what_the_steps_are(free, node, e, peer);
}

/// The walk `w` in one direction.
pub open spec fn toward(w: Walk, direction: Direction) -> Walk {
    Walk { direction, ..w }
}

/// The walk `w` where the transaction has added nothing.
pub open spec fn durable_only(w: Walk) -> Walk {
    Walk { delta: DeltaView { staged: Seq::empty(), tombstones: w.delta.tombstones }, ..w }
}

/// The walk `w` where the index has no edges.
pub open spec fn staged_only(w: Walk) -> Walk {
    Walk {
        graph: GraphView { out_edges: Map::empty(), in_edges: Map::empty(), ..w.graph },
        ..w
    }
}

proof fn lemma_no_staged(w: Walk, node: Seq<char>)
    requires
        w.delta.staged.len() == 0,
    ensures
        w.staged_out(node) == Seq::<Hop>::empty(),
        w.staged_in(node) == Seq::<Hop>::empty(),
{
    reveal(Seq::filter);
    assert(w.staged_out(node) =~= Seq::empty());
    assert(w.staged_in(node) =~= Seq::empty());
}

proof fn lemma_no_durable(w: Walk, node: Seq<char>)
    requires
        w.graph.out_of(node).len() == 0,
        w.graph.in_to(node).len() == 0,
    ensures
        w.durable_out(node) == Seq::<Hop>::empty(),
        w.durable_in(node) == Seq::<Hop>::empty(),
{
    reveal(Seq::filter);
    assert(w.durable_out(node) =~= Seq::empty());
    assert(w.durable_in(node) =~= Seq::empty());
}

proof fn lemma_one_sided(w: Walk, node: Seq<char>)
    ensures
        durable_only(toward(w, Direction::Out)).hops(node) == w.durable_out(node),
        durable_only(toward(w, Direction::In)).hops(node) == w.durable_in(node),
        staged_only(toward(w, Direction::Out)).hops(node) == w.staged_out(node),
        staged_only(toward(w, Direction::In)).hops(node) == w.staged_in(node),
{
    let durable_out = durable_only(toward(w, Direction::Out));
    let durable_in = durable_only(toward(w, Direction::In));
    let staged_out = staged_only(toward(w, Direction::Out));
    let staged_in = staged_only(toward(w, Direction::In));
    lemma_no_staged(durable_out, node);
    lemma_no_staged(durable_in, node);
    lemma_no_durable(staged_out, node);
    lemma_no_durable(staged_in, node);
    let p = |h: HalfEdge| w.durable_passes(walk::out_edge(node, h), h.peer);
    assert(p =~= |h: HalfEdge| durable_out.durable_passes(walk::out_edge(node, h), h.peer));
    let q = |h: HalfEdge| w.durable_passes(walk::in_edge(node, h), h.peer);
    assert(q =~= |h: HalfEdge| durable_in.durable_passes(walk::in_edge(node, h), h.peer));
    let r = |e: EdgeView| e.src == node && w.staged_label_passes(e.label);
    assert(r =~= |e: EdgeView| e.src == node && staged_out.staged_label_passes(e.label));
    let s = |e: EdgeView| e.dst == node && w.staged_label_passes(e.label);
    assert(s =~= |e: EdgeView| e.dst == node && staged_in.staged_label_passes(e.label));
    assert(durable_out.hops(node) =~= w.durable_out(node));
    assert(durable_in.hops(node) =~= w.durable_in(node));
    assert(staged_out.hops(node) =~= w.staged_out(node));
    assert(staged_in.hops(node) =~= w.staged_in(node));
}

/// A walk takes the steps along durable edges before those along added ones, and of each the steps
/// along edges that leave before those along edges that enter; in one direction it takes those of
/// that direction alone.
pub proof fn law_steps_come_in_order(w: Walk, node: Seq<char>)
    ensures
        w.hops(node) == (match w.direction {
            Direction::Out => durable_only(w).hops(node) + staged_only(w).hops(node),
            Direction::In => durable_only(w).hops(node) + staged_only(w).hops(node),
            Direction::Both => durable_only(toward(w, Direction::Out)).hops(node) + durable_only(
                toward(w, Direction::In),
            ).hops(node) + staged_only(toward(w, Direction::Out)).hops(node) + staged_only(
                toward(w, Direction::In),
            ).hops(node),
        }),
{
    lemma_one_sided(w, node);
    match w.direction {
        Direction::Out => {
            assert(toward(w, Direction::Out) == w);
            assert(w.hops(node) =~= w.durable_out(node) + w.staged_out(node));
        },
        Direction::In => {
            assert(toward(w, Direction::In) == w);
            assert(w.hops(node) =~= w.durable_in(node) + w.staged_in(node));
        },
        Direction::Both => {},
    }
}

/// The edge that is last among those that leave a node is followed last, and changes nothing about
/// the others.
pub proof fn law_last_leaving_edge_is_followed_last(
    w: Walk,
    node: Seq<char>,
    list: Seq<HalfEdge>,
    h: HalfEdge,
)
    requires
        w.direction == Direction::Out,
        w.delta.staged.len() == 0,
        w.graph.out_edges.contains_key(node),
        w.graph.out_edges[node] == list.push(h),
    ensures
        ({
            let e = EdgeView { src: node, label: h.label, dst: h.peer };
            let without = Walk {
                graph: GraphView {
                    out_edges: w.graph.out_edges.insert(node, list),
                    ..w.graph
                },
                ..w
            };
            w.hops(node) == (if laws::wants_durable(w, h.label) && !w.delta.tombstones.contains(e)
                && laws::lets_in(w, h.peer) {
                without.hops(node).push(Hop { edge: e, peer: h.peer })
            } else {
                without.hops(node)
            })
        }),
{
    let without = Walk {
        graph: GraphView { out_edges: w.graph.out_edges.insert(node, list), ..w.graph },
        ..w
    };
    let p = |x: HalfEdge| w.durable_passes(walk::out_edge(node, x), x.peer);
    let f = |x: HalfEdge| Hop { edge: walk::out_edge(node, x), peer: x.peer };
    assert(p =~= |x: HalfEdge| without.durable_passes(walk::out_edge(node, x), x.peer));
    lemma_no_staged(w, node);
    lemma_no_staged(without, node);
    list.lemma_filter_push(h, p);
    assert(w.hops(node) =~= w.durable_out(node));
    assert(without.hops(node) =~= without.durable_out(node));
    assert(list.filter(p).push(h).map_values(f) =~= list.filter(p).map_values(f).push(f(h)));
}

/// The edge that is last among those that enter a node is followed last, and changes nothing about
/// the others.
pub proof fn law_last_entering_edge_is_followed_last(
    w: Walk,
    node: Seq<char>,
    list: Seq<HalfEdge>,
    h: HalfEdge,
)
    requires
        w.direction == Direction::In,
        w.delta.staged.len() == 0,
        w.graph.in_edges.contains_key(node),
        w.graph.in_edges[node] == list.push(h),
    ensures
        ({
            let e = EdgeView { src: h.peer, label: h.label, dst: node };
            let without = Walk {
                graph: GraphView { in_edges: w.graph.in_edges.insert(node, list), ..w.graph },
                ..w
            };
            w.hops(node) == (if laws::wants_durable(w, h.label) && !w.delta.tombstones.contains(e)
                && laws::lets_in(w, h.peer) {
                without.hops(node).push(Hop { edge: e, peer: h.peer })
            } else {
                without.hops(node)
            })
        }),
{
    let without = Walk {
        graph: GraphView { in_edges: w.graph.in_edges.insert(node, list), ..w.graph },
        ..w
    };
    let p = |x: HalfEdge| w.durable_passes(walk::in_edge(node, x), x.peer);
    let f = |x: HalfEdge| Hop { edge: walk::in_edge(node, x), peer: x.peer };
    assert(p =~= |x: HalfEdge| without.durable_passes(walk::in_edge(node, x), x.peer));
    lemma_no_staged(w, node);
    lemma_no_staged(without, node);
    list.lemma_filter_push(h, p);
    assert(w.hops(node) =~= w.durable_in(node));
    assert(without.hops(node) =~= without.durable_in(node));
    assert(list.filter(p).push(h).map_values(f) =~= list.filter(p).map_values(f).push(f(h)));
}

/// The edge that the transaction added last is followed last, and changes nothing about the others.
pub proof fn law_last_added_edge_is_followed_last(
    w: Walk,
    node: Seq<char>,
    list: Seq<EdgeView>,
    e: EdgeView,
)
    requires
        w.direction != Direction::Both,
        w.delta.staged == list.push(e),
    ensures
        ({
            let without = Walk {
                delta: DeltaView { staged: list, tombstones: w.delta.tombstones },
                ..w
            };
            let near = if w.direction == Direction::Out { e.src } else { e.dst };
            let far = if w.direction == Direction::Out { e.dst } else { e.src };
            w.hops(node) == (if near == node && laws::wants_staged(w, e.label) {
                without.hops(node).push(Hop { edge: e, peer: far })
            } else {
                without.hops(node)
            })
        }),
{
    let without = Walk { delta: DeltaView { staged: list, tombstones: w.delta.tombstones }, ..w };
    if w.direction == Direction::Out {
        let p = |x: EdgeView| x.src == node && w.staged_label_passes(x.label);
        let f = |x: EdgeView| Hop { edge: x, peer: x.dst };
        assert(p =~= |x: EdgeView| x.src == node && without.staged_label_passes(x.label));
        let q = |x: HalfEdge| w.durable_passes(walk::out_edge(node, x), x.peer);
        assert(q =~= |x: HalfEdge| without.durable_passes(walk::out_edge(node, x), x.peer));
        list.lemma_filter_push(e, p);
        assert(list.filter(p).push(e).map_values(f) =~= list.filter(p).map_values(f).push(f(e)));
        assert(w.hops(node) =~= w.durable_out(node) + w.staged_out(node));
        assert(without.hops(node) =~= w.durable_out(node) + without.staged_out(node));
        if p(e) {
            assert(w.hops(node) =~= without.hops(node).push(f(e)));
        }
    } else {
        let p = |x: EdgeView| x.dst == node && w.staged_label_passes(x.label);
        let f = |x: EdgeView| Hop { edge: x, peer: x.src };
        assert(p =~= |x: EdgeView| x.dst == node && without.staged_label_passes(x.label));
        let q = |x: HalfEdge| w.durable_passes(walk::in_edge(node, x), x.peer);
        assert(q =~= |x: HalfEdge| without.durable_passes(walk::in_edge(node, x), x.peer));
        list.lemma_filter_push(e, p);
        assert(list.filter(p).push(e).map_values(f) =~= list.filter(p).map_values(f).push(f(e)));
        assert(w.hops(node) =~= w.durable_in(node) + w.staged_in(node));
        assert(without.hops(node) =~= w.durable_in(node) + without.staged_in(node));
        if p(e) {
            assert(w.hops(node) =~= without.hops(node).push(f(e)));
        }
    }
}

/// A traversal is made as it is asked for: over the index and the writes of the transaction, with the
/// label, direction, depth, cap and frontier bitmap that are given, from the nodes that are given.
pub proof fn law_walks_are_as_asked(graph: GraphView, params: BfsParams<'_>, delta: DeltaView)
    ensures
        ({
            let w = traversal_overlay::walk_of(graph, params, delta);
            &&& w.graph == graph
            &&& w.delta == delta
            &&& w.direction == params.direction
            &&& w.max_depth == params.max_depth
            &&& w.max_visited == params.max_visited
            &&& params.label_filter is None <==> w.label is None
            &&& params.label_filter is Some ==> w.label == Some(params.label_filter->0@)
            &&& params.frontier_bitmap is None <==> w.admitted is None
            &&& params.frontier_bitmap is Some ==> w.admitted == Some(params.frontier_bitmap->0@)
        }),
        traversal_overlay::start_names(params.start_nodes@).len() == params.start_nodes@.len(),
        forall|i: int|
            0 <= i < params.start_nodes@.len() ==> traversal_overlay::start_names(
                params.start_nodes@,
            )[i] == (#[trigger] params.start_nodes@[i])@,
{
}

/// A traversal sees the writes of the open transaction, and none where none is open.
pub proof fn law_only_open_transactions_write(overlay: Option<&GraphOverlayDelta>)
    ensures
        overlay is Some ==> traversal_overlay::writes_of(overlay) == overlay->0@,
        overlay is None ==> traversal_overlay::writes_of(overlay).staged.len() == 0
            && forall|e: EdgeView|
            !(#[trigger] traversal_overlay::writes_of(overlay).tombstones.contains(e)),
{
}

/// Whether two states of a transaction say the same of the edge `x`.
pub open spec fn written_alike(a: DeltaView, b: DeltaView, x: EdgeView) -> bool {
    &&& a.staged.contains(x) == b.staged.contains(x)
    &&& a.tombstones.contains(x) == b.tombstones.contains(x)
}

/// A write touches its own edge alone. Adding an edge puts it behind the edges added before, unless
/// it is one of them, and takes back its removal; removing it takes it out of the added ones, which
/// keep their order.
pub proof fn law_writes_touch_one_edge(delta: DeltaView, e: EdgeView)
    ensures
        forall|x: EdgeView|
            x != e ==> #[trigger] written_alike(delta, delta.staging(e), x) && written_alike(
                delta,
                delta.tombstoning(e),
                x,
            ),
        delta.staging(e).staged.contains(e),
        !delta.staging(e).tombstones.contains(e),
        !delta.tombstoning(e).staged.contains(e),
        delta.tombstoning(e).tombstones.contains(e),
        delta.staging(e).staged == (if delta.staged.contains(e) {
            delta.staged
        } else {
            delta.staged.push(e)
        }),
        !delta.staged.contains(e) ==> delta.tombstoning(e).staged == delta.staged,
        forall|x: EdgeView|
            x != e ==> #[trigger] (DeltaView { staged: delta.staged.push(x), ..delta }).tombstoning(
                e,
            ).staged == delta.tombstoning(e).staged.push(x),
{
    let p = walk::any_but(e);
    assert forall|x: EdgeView| x != e implies #[trigger] written_alike(
        delta,
        delta.staging(e),
        x,
    ) && written_alike(delta, delta.tombstoning(e), x) by {
        overlay_delta::lemma_filter_membership(delta.staged, p, x);
        if delta.staged.contains(x) {
            let i = choose|i: int| 0 <= i < delta.staged.len() && delta.staged[i] == x;
            assert(delta.staging(e).staged[i] == x);
        }
        if delta.staging(e).staged.contains(x) {
            let i = choose|i: int|
                0 <= i < delta.staging(e).staged.len() && delta.staging(e).staged[i] == x;
            assert(i < delta.staged.len());
            assert(delta.staged[i] == x);
        }
    }
    if !delta.staged.contains(e) {
        let all = delta.staging(e).staged;
        assert(all[all.len() - 1] == e);
        lemma_nothing_dropped(delta.staged, p);
    }
    overlay_delta::lemma_filter_membership(delta.staged, p, e);
    assert forall|x: EdgeView| x != e implies #[trigger] (DeltaView {
        staged: delta.staged.push(x),
        ..delta
    }).tombstoning(e).staged == delta.tombstoning(e).staged.push(x) by {
        delta.staged.lemma_filter_push(x, p);
    }
}

proof fn lemma_nothing_dropped(s: Seq<EdgeView>, p: spec_fn(EdgeView) -> bool)
    requires
        forall|x: EdgeView| #[trigger] s.contains(x) ==> p(x),
    ensures
        s.filter(p) == s,
    decreases s.len(),
{
    reveal(Seq::filter);
    if s.len() > 0 {
        let rest = s.drop_last();
        assert(s =~= rest.push(s.last()));
        assert(s[s.len() - 1] == s.last());
        assert(s.contains(s.last()));
        assert forall|x: EdgeView| #[trigger] rest.contains(x) implies p(x) by {
            let i = choose|i: int| 0 <= i < rest.len() && rest[i] == x;
            assert(s[i] == x);
            assert(s.contains(x));
        }
        lemma_nothing_dropped(rest, p);
    } else {
        assert(s.filter(p) =~= s);
    }
}

/// An edge can be added as long as ids for two more nodes and one more label are left of those that
/// thirty-two bits count.
pub proof fn law_when_there_is_room(index: CsrIndex)
    ensures
        index.has_room() <==> index.node_count() <= 0xffff_fffd && index.label_count()
            <= 0xffff_fffe,
{
}

/// A traversal reports the names of the nodes in the order found, and a subgraph its edges in the order
/// looked at, each as source, label and destination.
pub proof fn law_reports_keep_the_order(
    names: Seq<String>,
    found: Seq<Visit>,
    list: Seq<(String, String, String)>,
    edges: Seq<EdgeView>,
)
    requires
        traversal_overlay::name_views(names) == walk::names_of(found),
        traversal_overlay::triple_views(list) == edges,
    ensures
        names.len() == found.len(),
        forall|i: int| 0 <= i < found.len() ==> (#[trigger] names[i])@ == found[i].0,
        list.len() == edges.len(),
        forall|i: int|
            0 <= i < list.len() ==> (#[trigger] list[i]).0@ == edges[i].src && list[i].1@
                == edges[i].label && list[i].2@ == edges[i].dst,
{
    let told = traversal_overlay::name_views(names);
    let wanted = walk::names_of(found);
    assert(told.len() == names.len());
    assert(wanted.len() == found.len());
    assert forall|i: int| 0 <= i < found.len() implies (#[trigger] names[i])@ == found[i].0 by {
        assert(told[i] == names[i]@);
        assert(wanted[i] == found[i].0);
    }
}

} // verus!
