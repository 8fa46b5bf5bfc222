//! In which order a traversal finds nodes, and what its cap cuts off.

use vstd::prelude::*;

use super::laws;
use super::walk;
use super::walk::{EdgeView, Hop, Visit, Walk};
use crate::lists;

verus! {

/// Which start nodes are not named before.
pub open spec fn named_first(starts: Seq<Seq<char>>) -> spec_fn(int) -> bool {
    |k: int| forall|j: int| 0 <= j < k ==> #[trigger] starts[j] != starts[k]
}

proof fn lemma_count_alike(p: spec_fn(int) -> bool, q: spec_fn(int) -> bool, n: nat)
    requires
        forall|k: int| 0 <= k < n ==> #[trigger] p(k) == q(k),
    ensures
        lists::count(p, n) == lists::count(q, n),
    decreases n,
{
    if n > 0 {
        lemma_count_alike(p, q, (n - 1) as nat);
        assert(p(n - 1) == q(n - 1));
    }
}

proof fn lemma_seeds_in_order(starts: Seq<Seq<char>>)
    ensures
        walk::seeds(starts).len() == lists::count(named_first(starts), starts.len()),
        forall|k: int|
            0 <= k < starts.len() && #[trigger] named_first(starts)(k) ==> {
                let at = lists::count(named_first(starts), k as nat) as int;
                at < walk::seeds(starts).len() && walk::seeds(starts)[at] == (starts[k], 0nat)
            },
    decreases starts.len(),
{
    if starts.len() > 0 {
        let rest = starts.drop_last();
        let n = rest.len();
        let before = walk::seeds(rest);
        let all = walk::seeds(starts);
        let p = named_first(starts);
        let q = named_first(rest);
        lemma_seeds_in_order(rest);
        assert forall|k: int| 0 <= k < n implies #[trigger] p(k) == q(k) by {
            assert(rest[k] == starts[k]);
            if p(k) {
                assert forall|j: int| 0 <= j < k implies #[trigger] rest[j] != rest[k] by {
                    assert(starts[j] != starts[k]);
                }
            }
            if q(k) {
                assert forall|j: int| 0 <= j < k implies #[trigger] starts[j] != starts[k] by {
                    assert(rest[j] != rest[k]);
                }
            }
        }
        lemma_count_alike(p, q, n);
        let w = arbitrary::<Walk>();
        laws::lemma_seeds(w, rest);
        laws::lemma_seen_index(before, starts.last());
        assert(p(n as int) == !walk::seen(before, starts.last())) by {
            if walk::seen(before, starts.last()) {
                let j = choose|j: int|
                    0 <= j < before.len() && (#[trigger] before[j]).0 == starts.last();
                assert(rest.contains(before[j].0));
                let i = choose|i: int| 0 <= i < rest.len() && rest[i] == before[j].0;
                assert(starts[i] == starts[n as int]);
            } else {
                assert forall|j: int| 0 <= j < n implies #[trigger] starts[j] != starts[n as int] by {
                    assert(walk::seen(before, rest[j]));
                }
            }
        }
        assert forall|k: int| 0 <= k < starts.len() && #[trigger] p(k) implies {
            let at = lists::count(p, k as nat) as int;
            at < all.len() && all[at] == (starts[k], 0nat)
        } by {
            lemma_count_alike(p, q, k as nat);
            if k < n {
                assert(q(k));
                assert(rest[k] == starts[k]);
            }
        }
    }
}

/// A traversal reports its start nodes in the order in which they are given, each where it is named
/// first, at depth zero.
pub proof fn law_start_nodes_keep_their_order(w: Walk, starts: Seq<Seq<char>>, k: int)
    requires
        0 <= k < starts.len(),
        forall|j: int| 0 <= j < k ==> #[trigger] starts[j] != starts[k],
    ensures
        ({
            let at = lists::count(named_first(starts), k as nat) as int;
            at < w.visits(starts).len() && w.visits(starts)[at] == (starts[k], 0nat)
        }),
{
    lemma_seeds_in_order(starts);
    laws::law_start_nodes_come_first(w, starts);
    assert(named_first(starts)(k));
    let at = lists::count(named_first(starts), k as nat) as int;
    assert(walk::seeds(starts)[at] == w.visits(starts)[at]);
}

/// Whether one of the first `n` nodes of `found` is `name`.
pub open spec fn known_before(found: Seq<Visit>, name: Seq<char>, n: int) -> bool {
    exists|i: int| 0 <= i < n && i < found.len() && (#[trigger] found[i]).0 == name
}

/// Whether the node at `j` is found by the step `h` of the node at `p`: it is the end of that step, one
/// hop farther than that node, and the end of every step before that one is found before it.
pub open spec fn found_by(w: Walk, found: Seq<Visit>, j: int, p: int, h: int) -> bool {
    &&& 0 <= p < j < found.len()
    &&& found[p].1 < w.max_depth
    &&& found[j].1 == found[p].1 + 1
    &&& 0 <= h < w.hops(found[p].0).len()
    &&& w.hops(found[p].0)[h].peer == found[j].0
    &&& forall|q: int, g: int|
        0 <= q <= p && 0 <= g < w.hops(found[q].0).len() && (q == p ==> g < h) ==> known_before(
            found,
            (#[trigger] w.hops(found[q].0)[g]).peer,
            j,
        )
}

proof fn lemma_found_by_kept(w: Walk, found: Seq<Visit>, next: Seq<Visit>, j: int, p: int, h: int)
    requires
        found.is_prefix_of(next),
        found_by(w, found, j, p, h),
    ensures
        found_by(w, next, j, p, h),
{
    assert(next[p] == found[p] && next[j] == found[j]);
    assert forall|q: int, g: int|
        0 <= q <= p && 0 <= g < w.hops(next[q].0).len() && (q == p ==> g < h) implies known_before(
        next,
        (#[trigger] w.hops(next[q].0)[g]).peer,
        j,
    ) by {
        assert(next[q] == found[q]);
        let name = w.hops(found[q].0)[g].peer;
        let i = choose|i: int| 0 <= i < j && i < found.len() && (#[trigger] found[i]).0 == name;
        assert(next[i] == found[i]);
    }
}

/// Whether the node at `j` is found by some step.
pub open spec fn is_found(w: Walk, found: Seq<Visit>, j: int) -> bool {
    exists|p: int, h: int| #[trigger] found_by(w, found, j, p, h)
}

/// Whether the node at `j` is found by some step of the node at `p`.
pub open spec fn is_found_from(w: Walk, found: Seq<Visit>, j: int, p: int) -> bool {
    exists|h: int| #[trigger] found_by(w, found, j, p, h)
}

/// Whether every node behind the first `n` is found by a step.
spec fn all_found_by(w: Walk, found: Seq<Visit>, n: int) -> bool {
    forall|j: int| n <= j < found.len() ==> #[trigger] is_found(w, found, j)
}

/// What the first `k` steps of the node at `head` find.
proof fn lemma_offered_by(w: Walk, starts: Seq<Seq<char>>, found: Seq<Visit>, head: nat, k: nat)
    requires
        laws::sound(w, starts, found, head),
        head < found.len() < w.max_visited,
        found[head as int].1 < w.max_depth,
        laws::closed_before(w, found, head),
        k <= w.hops(found[head as int].0).len(),
    ensures
        ({
            let hops = w.hops(found[head as int].0).take(k as int);
            let after = walk::offer_all(found, hops, found[head as int].1 + 1, w.max_visited);
            &&& found.is_prefix_of(after)
            &&& forall|j: int|
                found.len() <= j < after.len() ==> #[trigger] is_found_from(w, after, j, head as int)
        }),
    decreases k,
{
    let node = found[head as int].0;
    let depth = found[head as int].1 + 1;
    let all = w.hops(node);
    let hops = all.take(k as int);
    let after = walk::offer_all(found, hops, depth, w.max_visited);
    if k > 0 {
        lemma_offered_by(w, starts, found, head, (k - 1) as nat);
        let rest = all.take(k - 1);
        assert(hops.drop_last() =~= rest);
        let before = walk::offer_all(found, rest, depth, w.max_visited);
        let name = hops.last().peer;
        assert(hops.last() == all[k - 1]);
        assert(found.is_prefix_of(after));
        if before.len() < w.max_visited && !walk::seen(before, name) {
            assert(after == before.push((name, depth)));
            assert forall|h: int| 0 <= h < rest.len() implies laws::leads_to(
                w,
                node,
                (#[trigger] rest[h]).peer,
            ) by {
                assert(w.hops(node)[h].peer == rest[h].peer);
            }
            laws::lemma_offer_all(w, starts, found, head, rest);
            let j = before.len() as int;
            assert(after[head as int] == found[head as int]);
            assert(found_by(w, after, j, head as int, k - 1)) by {
                assert(after[j] == (name, depth));
                assert forall|q: int, g: int|
                    0 <= q <= head && 0 <= g < w.hops(after[q].0).len() && (q == head ==> g < k
                        - 1) implies known_before(after, (#[trigger] w.hops(after[q].0)[g]).peer, j) by {
                    assert(after[q] == found[q]);
                    if q < head {
                        assert(found[q].1 <= found[head as int].1);
                        assert(laws::closed_under(w, found, q));
                        let peer = w.hops(found[q].0)[g].peer;
                        assert(laws::found_within(found, peer, found[q].1 + 1));
                        let i = choose|i: int|
                            0 <= i < found.len() && (#[trigger] found[i]).0 == peer && found[i].1
                                <= found[q].1 + 1;
                        assert(after[i] == found[i]);
                    } else {
                        let peer = rest[g].peer;
                        assert(peer == w.hops(node)[g].peer);
                        assert(laws::found_within(before, peer, depth));
                        let i = choose|i: int|
                            0 <= i < before.len() && (#[trigger] before[i]).0 == peer && before[i].1
                                <= depth;
                        assert(after[i] == before[i]);
                    }
                }
            }
            assert forall|i: int| found.len() <= i < after.len() implies #[trigger] is_found_from(
                w,
                after,
                i,
                head as int,
            ) by {
                if i < before.len() {
                    assert(is_found_from(w, before, i, head as int));
                    let h = choose|h: int| #[trigger] found_by(w, before, i, head as int, h);
                    lemma_found_by_kept(w, before, after, i, head as int, h);
                } else {
                    assert(found_by(w, after, j, head as int, k - 1));
                }
            }
        }
    }
}

proof fn lemma_run_found_by(
    w: Walk,
    starts: Seq<Seq<char>>,
    found: Seq<Visit>,
    head: nat,
    n: int,
)
    requires
        laws::sound(w, starts, found, head),
        head <= found.len(),
        found.len() < w.max_visited ==> laws::closed_before(w, found, head),
        all_found_by(w, found, n),
    ensures
        all_found_by(w, w.run(found, head), n),
    decreases
        (if w.max_visited > found.len() { w.max_visited as int } else { found.len() as int })
            - head,
{
    if head < found.len() {
        let next = w.expand(found, head as int);
        laws::lemma_expand(w, starts, found, head);
        if w.goes_on(found[head as int], found.len()) {
            let hops = w.hops(found[head as int].0);
            walk::lemma_offer_all_len(found, hops, found[head as int].1 + 1, w.max_visited);
            lemma_offered_by(w, starts, found, head, hops.len());
            assert(hops.take(hops.len() as int) =~= hops);
            assert forall|j: int| n <= j < next.len() implies #[trigger] is_found(
                w,
                next,
                j,
            ) by {
                if j < found.len() {
                    assert(is_found(w, found, j));
                    let (p, h) = choose|p: int, h: int| #[trigger] found_by(w, found, j, p, h);
                    lemma_found_by_kept(w, found, next, j, p, h);
                } else {
                    assert(is_found_from(w, next, j, head as int));
                    let h = choose|h: int| #[trigger] found_by(w, next, j, head as int, h);
                    assert(found_by(w, next, j, head as int, h));
                }
            }
        }
        if next.len() < w.max_visited {
            assert forall|i: int| 0 <= i < head + 1 && (#[trigger] next[i]).1
                < w.max_depth implies laws::closed_under(w, next, i) by {
                assert(next[i] == found[i]);
                if i < head {
                    laws::lemma_closed_kept(w, found, next, i);
                }
            }
        }
        lemma_run_found_by(w, starts, next, head + 1, n);
    }
}

/// The order of a traversal is the order of discovery: every node but the start nodes is found by a
/// step of a node before it, one hop farther, and all that steps of nodes before that one, or earlier
/// steps of that one, lead to is found before it.
pub proof fn law_nodes_are_found_in_the_order_of_steps(w: Walk, starts: Seq<Seq<char>>, j: int)
    requires
        0 <= j < w.visits(starts).len(),
        !starts.contains(w.visits(starts)[j].0),
    ensures
        is_found(w, w.visits(starts), j),
{
    let seeds = walk::seeds(starts);
    laws::lemma_sound_seeds(w, starts);
    laws::lemma_seeds(w, starts);
    laws::law_start_nodes_come_first(w, starts);
    lemma_run_found_by(w, starts, seeds, 0, seeds.len() as int);
    if j < seeds.len() {
        assert(seeds[j] == w.visits(starts)[j]);
    }
}

/// The walk `w` with another cap.
pub open spec fn capped(w: Walk, cap: nat) -> Walk {
    Walk { max_visited: cap, ..w }
}

proof fn lemma_full_run(w: Walk, found: Seq<Visit>, head: nat)
    requires
        found.len() >= w.max_visited,
    ensures
        w.run(found, head) == found,
        w.edges_from(found, head) == Seq::<EdgeView>::empty(),
    decreases found.len() - head,
{
    if head < found.len() {
        lemma_full_run(w, found, head + 1);
        assert(w.edges_from(found, head) =~= Seq::empty());
    }
}

proof fn lemma_offers_grow(found: Seq<Visit>, hops: Seq<Hop>, depth: nat, cap: nat)
    ensures
        found.is_prefix_of(walk::offer_all(found, hops, depth, cap)),
    decreases hops.len(),
{
    if hops.len() > 0 {
        lemma_offers_grow(found, hops.drop_last(), depth, cap);
    }
}

proof fn lemma_run_grows(w: Walk, found: Seq<Visit>, head: nat)
    ensures
        found.is_prefix_of(w.run(found, head)),
    decreases
        (if w.max_visited > found.len() { w.max_visited as int } else { found.len() as int })
            - head,
{
    if head < found.len() {
        let v = found[head as int];
        walk::lemma_offer_all_len(found, w.hops(v.0), v.1 + 1, w.max_visited);
        lemma_offers_grow(found, w.hops(v.0), v.1 + 1, w.max_visited);
        lemma_run_grows(w, w.expand(found, head as int), head + 1);
        assert(found.is_prefix_of(w.expand(found, head as int)));
    }
}

proof fn lemma_offers_capped(found: Seq<Visit>, hops: Seq<Hop>, depth: nat, cap: nat, more: nat)
    requires
        cap <= more,
    ensures
        ({
            let few = walk::offer_all(found, hops, depth, cap);
            let many = walk::offer_all(found, hops, depth, more);
            &&& few.is_prefix_of(many)
            &&& few.len() < cap ==> few == many
        }),
    decreases hops.len(),
{
    if hops.len() > 0 {
        lemma_offers_capped(found, hops.drop_last(), depth, cap, more);
    }
}

proof fn lemma_hops_capped(w: Walk, cap: nat, node: Seq<char>)
    ensures
        capped(w, cap).hops(node) == w.hops(node),
{
    let c = capped(w, cap);
    assert(c.durable_out(node) == w.durable_out(node)) by {
        assert((|h: walk::HalfEdge| c.durable_passes(walk::out_edge(node, h), h.peer)) =~= (
        |h: walk::HalfEdge| w.durable_passes(walk::out_edge(node, h), h.peer)));
    }
    assert(c.durable_in(node) == w.durable_in(node)) by {
        assert((|h: walk::HalfEdge| c.durable_passes(walk::in_edge(node, h), h.peer)) =~= (
        |h: walk::HalfEdge| w.durable_passes(walk::in_edge(node, h), h.peer)));
    }
    assert(c.staged_out(node) == w.staged_out(node)) by {
        assert((|e: EdgeView| e.src == node && c.staged_label_passes(e.label)) =~= (|e: EdgeView|
            e.src == node && w.staged_label_passes(e.label)));
    }
    assert(c.staged_in(node) == w.staged_in(node)) by {
        assert((|e: EdgeView| e.dst == node && c.staged_label_passes(e.label)) =~= (|e: EdgeView|
            e.dst == node && w.staged_label_passes(e.label)));
    }
}

proof fn lemma_run_capped(w: Walk, cap: nat, found: Seq<Visit>, head: nat)
    requires
        cap <= w.max_visited,
    ensures
        ({
            let c = capped(w, cap);
            &&& c.run(found, head).is_prefix_of(w.run(found, head))
            &&& c.run(found, head).len() < cap ==> c.run(found, head) == w.run(found, head)
                && c.edges_from(found, head) == w.edges_from(found, head)
            &&& c.edges_from(found, head).is_prefix_of(w.edges_from(found, head))
        }),
    decreases
        (if w.max_visited > found.len() { w.max_visited as int } else { found.len() as int })
            - head,
{
    let c = capped(w, cap);
    if found.len() >= cap {
        lemma_full_run(c, found, head);
        lemma_run_grows(w, found, head);
        assert(Seq::<EdgeView>::empty().is_prefix_of(w.edges_from(found, head))) by {
            assert(w.edges_from(found, head).subrange(0, 0) =~= Seq::empty());
        }
    } else if head < found.len() {
        let v = found[head as int];
        lemma_hops_capped(w, cap, v.0);
        walk::lemma_offer_all_len(found, w.hops(v.0), v.1 + 1, w.max_visited);
        lemma_offers_capped(found, w.hops(v.0), v.1 + 1, cap, w.max_visited);
        let few = c.expand(found, head as int);
        let many = w.expand(found, head as int);
        let here = if w.goes_on(v, found.len()) {
            walk::edges_of(w.hops(v.0))
        } else {
            Seq::empty()
        };
        assert(c.edges_from(found, head) == here + c.edges_from(few, head + 1));
        assert(w.edges_from(found, head) == here + w.edges_from(many, head + 1));
        if few.len() < cap {
            assert(few == many);
            lemma_run_capped(w, cap, many, head + 1);
        } else {
            lemma_full_run(c, few, head + 1);
            lemma_run_grows(w, many, head + 1);
        }
        let a = c.edges_from(few, head + 1);
        let b = w.edges_from(many, head + 1);
        assert(a.is_prefix_of(b)) by {
            if few.len() >= cap {
                assert(b.subrange(0, 0) =~= a);
            }
        }
        assert((here + b).subrange(0, (here + a).len() as int) =~= here + a) by {
            assert(b.subrange(0, a.len() as int) == a);
        }
    }
}

/// A cap only cuts off: a traversal with a smaller cap finds the same nodes in the same order, as far
/// as it comes, and so does its subgraph. One that does not fill its cap is not cut at all.
pub proof fn law_the_cap_only_cuts_off(w: Walk, cap: nat, starts: Seq<Seq<char>>)
    requires
        cap <= w.max_visited,
    ensures
        capped(w, cap).visits(starts).is_prefix_of(w.visits(starts)),
        capped(w, cap).edges(starts).is_prefix_of(w.edges(starts)),
        capped(w, cap).visits(starts).len() < cap ==> capped(w, cap).visits(starts) == w.visits(
            starts,
        ) && capped(w, cap).edges(starts) == w.edges(starts),
{
    lemma_run_capped(w, cap, walk::seeds(starts), 0);
}

/// The edges of the steps from the first `n` nodes of `found` that are nearer than the depth asked
/// for, node by node and step by step.
pub open spec fn edges_along(w: Walk, found: Seq<Visit>, n: nat) -> Seq<EdgeView>
    decreases n,
{
    if n == 0 || n > found.len() {
        Seq::empty()
    } else {
        let v = found[n - 1];
        edges_along(w, found, (n - 1) as nat) + (if v.1 < w.max_depth {
            Seq::new(w.hops(v.0).len(), |i: int| w.hops(v.0)[i].edge)
        } else {
            Seq::empty()
        })
    }
}

proof fn lemma_edges_along(w: Walk, starts: Seq<Seq<char>>, found: Seq<Visit>, head: nat)
    requires
        laws::sound(w, starts, found, head),
        head <= found.len() < w.max_visited,
        laws::closed_before(w, found, head),
    ensures
        ({
            let all = w.run(found, head);
            if all.len() < w.max_visited {
                edges_along(w, all, all.len()) == edges_along(w, all, head) + w.edges_from(
                    found,
                    head,
                )
            } else {
                exists|p: int, h: int| #[trigger]
                    found_by(w, all, all.len() - 1, p, h) && edges_along(w, all, (p + 1) as nat)
                        == edges_along(w, all, head) + w.edges_from(found, head)
            }
        }),
    decreases w.max_visited - head,
{
    let all = w.run(found, head);
    laws::lemma_run(w, starts, found, head);
    if head < found.len() {
        let v = found[head as int];
        let next = w.expand(found, head as int);
        laws::lemma_expand(w, starts, found, head);
        walk::lemma_offer_all_len(found, w.hops(v.0), v.1 + 1, w.max_visited);
        let here = if w.goes_on(v, found.len()) {
            walk::edges_of(w.hops(v.0))
        } else {
            Seq::empty()
        };
        let later = w.edges_from(next, head + 1);
        assert(w.edges_from(found, head) == here + later);
        assert(all[head as int] == v);
        assert(here =~= (if v.1 < w.max_depth {
            Seq::new(w.hops(v.0).len(), |i: int| w.hops(v.0)[i].edge)
        } else {
            Seq::empty()
        }));
        assert(edges_along(w, all, head + 1) == edges_along(w, all, head) + here);
        assert(edges_along(w, all, head + 1) + later =~= edges_along(w, all, head) + (here + later));
        if next.len() < w.max_visited {
            assert forall|i: int| 0 <= i < head + 1 && (#[trigger] next[i]).1
                < w.max_depth implies laws::closed_under(w, next, i) by {
                assert(next[i] == found[i]);
                if i < head {
                    laws::lemma_closed_kept(w, found, next, i);
                }
            }
            lemma_edges_along(w, starts, next, head + 1);
        } else {
            let hops = w.hops(v.0);
            lemma_full_run(w, next, head + 1);
            lemma_offered_by(w, starts, found, head, hops.len());
            assert(hops.take(hops.len() as int) =~= hops);
            assert(all == next);
            assert(is_found_from(w, next, next.len() - 1, head as int));
            let h = choose|h: int| #[trigger] found_by(w, next, next.len() - 1, head as int, h);
            assert(found_by(w, all, all.len() - 1, head as int, h));
            assert(later =~= Seq::empty());
        }
    } else {
        assert(edges_along(w, all, head) + w.edges_from(found, head) =~= edges_along(w, all, head));
    }
}

/// A subgraph holds, in the order of the nodes found and of the steps from each, the edge of every
/// step from every node that is nearer than the depth asked for. Where the cap is filled, it ends with
/// the steps of the node that found the last one; where the start nodes alone fill it, it is empty.
pub proof fn law_subgraphs_hold_the_edges_of_all_steps(w: Walk, starts: Seq<Seq<char>>)
    ensures
        ({
            let all = w.visits(starts);
            if all.len() < w.max_visited {
                w.edges(starts) == edges_along(w, all, all.len())
            } else if all.len() == 0 || starts.contains(all.last().0) {
                w.edges(starts).len() == 0
            } else {
                exists|p: int, h: int| #[trigger]
                    found_by(w, all, all.len() - 1, p, h) && w.edges(starts) == edges_along(
                        w,
                        all,
                        (p + 1) as nat,
                    )
            }
        }),
{
    let seeds = walk::seeds(starts);
    let all = w.visits(starts);
    laws::lemma_sound_seeds(w, starts);
    laws::lemma_seeds(w, starts);
    if seeds.len() >= w.max_visited {
        lemma_full_run(w, seeds, 0);
        if all.len() > 0 {
            assert(starts.contains(seeds[seeds.len() - 1].0));
        }
    } else {
        lemma_edges_along(w, starts, seeds, 0);
        assert(edges_along(w, all, 0) + w.edges(starts) =~= w.edges(starts));
        if all.len() >= w.max_visited && starts.contains(all.last().0) {
            laws::law_start_nodes_come_first(w, starts);
            laws::law_each_node_is_found_once(w, starts);
            let k = choose|k: int| 0 <= k < starts.len() && starts[k] == all.last().0;
            assert(walk::seen(seeds, starts[k]));
            laws::lemma_seen_index(seeds, starts[k]);
            let j = choose|j: int| 0 <= j < seeds.len() && (#[trigger] seeds[j]).0 == starts[k];
            assert(all[j] == seeds[j]);
            assert(walk::names_of(all)[j] == walk::names_of(all)[all.len() - 1]);
            assert(false);
        }
    }
}

} // verus!
