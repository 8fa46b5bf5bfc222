//! What every traversal promises.

use vstd::prelude::*;

use super::overlay_delta;
use super::overlay_delta::GraphOverlayDelta;
use super::traversal_overlay;
use super::traversal_overlay::BfsParams;
use super::walk;
use super::walk::{DeltaView, Direction, EdgeView, GraphView, HalfEdge, Hop, Visit, Walk};

verus! {

/// Whether the walk can come from a start node to `name` in `hops` steps.
pub open spec fn reaches(w: Walk, starts: Seq<Seq<char>>, name: Seq<char>, hops: nat) -> bool
    decreases hops,
{
    if hops == 0 {
        starts.contains(name)
    } else {
        exists|from: Seq<char>| #[trigger]
            leads_to(w, from, name) && reaches(w, starts, from, (hops - 1) as nat)
    }
}

/// Whether one step of the walk leads from `from` to `to`.
pub open spec fn leads_to(w: Walk, from: Seq<char>, to: Seq<char>) -> bool {
    exists|i: int| 0 <= i < w.hops(from).len() && (#[trigger] w.hops(from)[i]).peer == to
}

/// Whether `found` holds `name` at a depth of at most `depth`.
pub open spec fn found_within(found: Seq<Visit>, name: Seq<char>, depth: nat) -> bool {
    exists|j: int| 0 <= j < found.len() && (#[trigger] found[j]).0 == name && found[j].1 <= depth
}

/// Whether the edge is part of the graph that the transaction sees: the index holds it and the
/// transaction has not removed it, or the transaction added it.
pub open spec fn visible(graph: GraphView, delta: DeltaView, e: EdgeView) -> bool {
    ||| !delta.tombstones.contains(e) && leaves(graph, e)
    ||| !delta.tombstones.contains(e) && enters(graph, e)
    ||| delta.staged.contains(e)
}

/// Whether the index has the edge among those that leave its source.
pub open spec fn leaves(graph: GraphView, e: EdgeView) -> bool {
    graph.out_edges.contains_key(e.src) && graph.out_edges[e.src].contains(
        HalfEdge { label: e.label, peer: e.dst },
    )
}

/// Whether the index has the edge among those that enter its destination.
pub open spec fn enters(graph: GraphView, e: EdgeView) -> bool {
    graph.in_edges.contains_key(e.dst) && graph.in_edges[e.dst].contains(
        HalfEdge { label: e.label, peer: e.src },
    )
}

/// Whether a walk follows durable edges under `label`: where it wants a label that the index knows,
/// that label and no other.
pub open spec fn wants_durable(w: Walk, label: Seq<char>) -> bool {
    w.label is Some && w.graph.labels.contains(w.label->0) ==> label == w.label->0
}

/// Whether a walk follows staged edges under `label`: where it wants a label, that label and no other.
pub open spec fn wants_staged(w: Walk, label: Seq<char>) -> bool {
    w.label is Some ==> label == w.label->0
}

/// Whether durable edges may lead to `node`: where there is a frontier bitmap, it holds the node's
/// surrogate, or zero where the node has none.
pub open spec fn lets_in(w: Walk, node: Seq<char>) -> bool {
    w.admitted is Some ==> w.admitted->0.contains(
        if w.graph.surrogates.contains_key(node) {
            w.graph.surrogates[node]
        } else {
            0
        },
    )
}

pub(crate) open spec fn depths_sorted(found: Seq<Visit>) -> bool {
    forall|i: int, j: int|
        0 <= i <= j < found.len() ==> (#[trigger] found[i]).1 <= (#[trigger] found[j]).1
}

pub(crate) open spec fn all_reach(w: Walk, starts: Seq<Seq<char>>, found: Seq<Visit>) -> bool {
    forall|i: int|
        0 <= i < found.len() ==> reaches(w, starts, (#[trigger] found[i]).0, found[i].1)
            && found[i].1 <= w.max_depth
}

pub(crate) open spec fn closed_under(w: Walk, found: Seq<Visit>, i: int) -> bool {
    forall|h: int|
        0 <= h < w.hops(found[i].0).len() ==> found_within(
            found,
            (#[trigger] w.hops(found[i].0)[h]).peer,
            found[i].1 + 1,
        )
}

/// What holds at every point of a walk.
pub(crate) open spec fn sound(w: Walk, starts: Seq<Seq<char>>, found: Seq<Visit>, head: nat) -> bool {
    &&& walk::names_of(found).no_duplicates()
    &&& depths_sorted(found)
    &&& all_reach(w, starts, found)
    &&& head < found.len() ==> forall|i: int|
        0 <= i < found.len() ==> (#[trigger] found[i]).1 <= found[head as int].1 + 1
    &&& walk::seeds(starts).is_prefix_of(found)
}

pub(crate) proof fn lemma_seen_index(found: Seq<Visit>, name: Seq<char>)
    ensures
        walk::seen(found, name) <==> exists|j: int|
            0 <= j < found.len() && (#[trigger] found[j]).0 == name,
{
    let names = walk::names_of(found);
    if walk::seen(found, name) {
        let j = choose|j: int| 0 <= j < names.len() && names[j] == name;
        assert(found[j].0 == name);
    }
    if exists|j: int| 0 <= j < found.len() && (#[trigger] found[j]).0 == name {
        let j = choose|j: int| 0 <= j < found.len() && (#[trigger] found[j]).0 == name;
        assert(names[j] == name);
    }
}

proof fn lemma_push_no_duplicates(found: Seq<Visit>, v: Visit)
    requires
        walk::names_of(found).no_duplicates(),
        !walk::seen(found, v.0),
    ensures
        walk::names_of(found.push(v)).no_duplicates(),
{
    let names = walk::names_of(found);
    let after = walk::names_of(found.push(v));
    assert(after =~= names.push(v.0));
    assert forall|i: int, j: int| 0 <= i < after.len() && 0 <= j < after.len() && i
        != j implies after[i] != after[j] by {
        if i < names.len() && j < names.len() {
            assert(names[i] != names[j]);
        } else if i < names.len() {
            assert(names.contains(names[i]));
        } else {
            assert(names.contains(names[j]));
        }
    }
}

pub(crate) proof fn lemma_seeds(w: Walk, starts: Seq<Seq<char>>)
    ensures
        walk::names_of(walk::seeds(starts)).no_duplicates(),
        forall|i: int|
            0 <= i < walk::seeds(starts).len() ==> (#[trigger] walk::seeds(starts)[i]).1 == 0
                && starts.contains(walk::seeds(starts)[i].0),
        forall|k: int|
            0 <= k < starts.len() ==> walk::seen(walk::seeds(starts), #[trigger] starts[k]),
        walk::seeds(starts).len() <= starts.len(),
    decreases starts.len(),
{
    if starts.len() > 0 {
        let rest = starts.drop_last();
        let before = walk::seeds(rest);
        lemma_seeds(w, rest);
        let all = walk::seeds(starts);
        assert(starts =~= rest.push(starts.last()));
        assert forall|i: int| 0 <= i < all.len() implies (#[trigger] all[i]).1 == 0
            && starts.contains(all[i].0) by {
            if i < before.len() {
                assert(rest.contains(before[i].0));
            }
        }
        if !walk::seen(before, starts.last()) {
            lemma_push_no_duplicates(before, (starts.last(), 0nat));
            assert(walk::names_of(all) =~= walk::names_of(before).push(starts.last()));
        }
        assert forall|k: int| 0 <= k < starts.len() implies walk::seen(
            all,
            #[trigger] starts[k],
        ) by {
            if k < rest.len() {
                assert(walk::seen(before, rest[k]));
                lemma_seen_index(before, rest[k]);
                lemma_seen_index(all, rest[k]);
                let j = choose|j: int| 0 <= j < before.len() && (#[trigger] before[j]).0 == rest[k];
                assert(all[j].0 == starts[k]);
            } else if !walk::seen(before, starts.last()) {
                lemma_seen_index(all, starts.last());
                assert(all[all.len() - 1].0 == starts.last());
            }
        }
    } else {
        assert(walk::names_of(walk::seeds(starts)) =~= Seq::empty());
    }
}

/// What offering the ends of some steps of the node at `head` does.
pub(crate) proof fn lemma_offer_all(
    w: Walk,
    starts: Seq<Seq<char>>,
    found: Seq<Visit>,
    head: nat,
    hops: Seq<Hop>,
)
    requires
        sound(w, starts, found, head),
        head < found.len(),
        found[head as int].1 < w.max_depth,
        forall|h: int|
            0 <= h < hops.len() ==> leads_to(w, found[head as int].0, (#[trigger] hops[h]).peer),
    ensures
        ({
            let depth = found[head as int].1 + 1;
            let after = walk::offer_all(found, hops, depth, w.max_visited);
            &&& sound(w, starts, after, head)
            &&& found.is_prefix_of(after)
            &&& after.len() < w.max_visited ==> forall|h: int|
                0 <= h < hops.len() ==> found_within(after, (#[trigger] hops[h]).peer, depth)
        }),
    decreases hops.len(),
{
    let depth = found[head as int].1 + 1;
    let after = walk::offer_all(found, hops, depth, w.max_visited);
    if hops.len() > 0 {
        let rest = hops.drop_last();
        assert forall|h: int| 0 <= h < rest.len() implies leads_to(
            w,
            found[head as int].0,
            (#[trigger] rest[h]).peer,
        ) by {
            assert(rest[h] == hops[h]);
        }
        lemma_offer_all(w, starts, found, head, rest);
        let before = walk::offer_all(found, rest, depth, w.max_visited);
        let name = hops.last().peer;
        assert(before[head as int] == found[head as int]);
        lemma_seen_index(before, name);
        if before.len() < w.max_visited && !walk::seen(before, name) {
            assert(after == before.push((name, depth)));
            lemma_push_no_duplicates(before, (name, depth));
            assert(leads_to(w, found[head as int].0, hops[hops.len() - 1].peer));
            assert(reaches(w, starts, found[head as int].0, (depth - 1) as nat));
            assert(reaches(w, starts, name, depth));
            assert forall|h: int| 0 <= h < hops.len() && after.len()
                < w.max_visited implies found_within(after, (#[trigger] hops[h]).peer, depth) by {
                if h < rest.len() {
                    assert(rest[h] == hops[h]);
                    let j = choose|j: int|
                        0 <= j < before.len() && (#[trigger] before[j]).0 == hops[h].peer
                            && before[j].1 <= depth;
                    assert(after[j] == before[j]);
                } else {
                    assert(after[after.len() - 1] == (name, depth));
                }
            }
        } else {
            assert forall|h: int| 0 <= h < hops.len() && after.len()
                < w.max_visited implies found_within(after, (#[trigger] hops[h]).peer, depth) by {
                if h < rest.len() {
                    assert(rest[h] == hops[h]);
                } else {
                    let j = choose|j: int| 0 <= j < before.len() && (#[trigger] before[j]).0 == name;
                    assert(before[j].1 <= before[head as int].1 + 1);
                }
            }
        }
    }
}

pub(crate) proof fn lemma_expand(w: Walk, starts: Seq<Seq<char>>, found: Seq<Visit>, head: nat)
    requires
        sound(w, starts, found, head),
        head < found.len(),
    ensures
        sound(w, starts, w.expand(found, head as int), head + 1),
        found.is_prefix_of(w.expand(found, head as int)),
        w.expand(found, head as int).len() < w.max_visited && found[head as int].1 < w.max_depth
            ==> closed_under(w, w.expand(found, head as int), head as int),
{
    let after = w.expand(found, head as int);
    let node = found[head as int].0;
    if w.goes_on(found[head as int], found.len()) {
        let hops = w.hops(node);
        assert forall|h: int| 0 <= h < hops.len() implies leads_to(
            w,
            node,
            (#[trigger] hops[h]).peer,
        ) by {
            assert(w.hops(node)[h].peer == hops[h].peer);
        }
        lemma_offer_all(w, starts, found, head, hops);
        assert(after[head as int] == found[head as int]);
    }
    if head + 1 < after.len() {
        assert forall|i: int| 0 <= i < after.len() implies (#[trigger] after[i]).1 <= after[head
            as int + 1].1 + 1 by {
            assert(after[head as int].1 <= after[head as int + 1].1);
        }
    }
}

/// Once everything of `found` before `head` is closed under the steps of the walk, so is all that
/// the walk finds, unless it runs into the cap.
pub(crate) proof fn lemma_run(w: Walk, starts: Seq<Seq<char>>, found: Seq<Visit>, head: nat)
    requires
        sound(w, starts, found, head),
        head <= found.len(),
    ensures
        ({
            let all = w.run(found, head);
            &&& sound(w, starts, all, all.len())
            &&& found.is_prefix_of(all)
            &&& all.len() < w.max_visited && (forall|i: int|
                0 <= i < head && (#[trigger] found[i]).1 < w.max_depth ==> closed_under(w, found, i))
                ==> forall|i: int|
                0 <= i < all.len() && (#[trigger] all[i]).1 < w.max_depth ==> closed_under(w, all, i)
        }),
    decreases
        (if w.max_visited > found.len() { w.max_visited as int } else { found.len() as int })
            - head,
{
    let all = w.run(found, head);
    if head < found.len() {
        let next = w.expand(found, head as int);
        lemma_expand(w, starts, found, head);
        if w.goes_on(found[head as int], found.len()) {
            walk::lemma_offer_all_len(
                found,
                w.hops(found[head as int].0),
                found[head as int].1 + 1,
                w.max_visited,
            );
        }
        lemma_run(w, starts, next, head + 1);
        if all.len() < w.max_visited && (forall|i: int|
            0 <= i < head && (#[trigger] found[i]).1 < w.max_depth ==> closed_under(w, found, i)) {
            assert forall|i: int| 0 <= i < head + 1 && (#[trigger] next[i]).1
                < w.max_depth implies closed_under(w, next, i) by {
                assert(next[i] == found[i]);
                if i < head {
                    lemma_closed_kept(w, found, next, i);
                }
            }
        }
    }
}

/// What is found later takes nothing away from what a node leads to.
pub(crate) proof fn lemma_closed_kept(w: Walk, found: Seq<Visit>, next: Seq<Visit>, i: int)
    requires
        found.is_prefix_of(next),
        0 <= i < found.len(),
        closed_under(w, found, i),
    ensures
        closed_under(w, next, i),
{
    assert(next[i] == found[i]);
    assert forall|h: int| 0 <= h < w.hops(next[i].0).len() implies found_within(
        next,
        (#[trigger] w.hops(next[i].0)[h]).peer,
        next[i].1 + 1,
    ) by {
        let peer = w.hops(found[i].0)[h].peer;
        let j = choose|j: int|
            0 <= j < found.len() && (#[trigger] found[j]).0 == peer && found[j].1 <= found[i].1 + 1;
        assert(next[j] == found[j]);
    }
}

/// Whether all that the first `head` nodes lead to has been found.
pub(crate) open spec fn closed_before(w: Walk, found: Seq<Visit>, head: nat) -> bool {
    forall|i: int|
        0 <= i < head && (#[trigger] found[i]).1 < w.max_depth ==> closed_under(w, found, i)
}

/// Whether every node has been found at the length of a shortest way to it.
spec fn least(w: Walk, starts: Seq<Seq<char>>, found: Seq<Visit>) -> bool {
    forall|i: int, hops: nat|
        0 <= i < found.len() && #[trigger] reaches(w, starts, found[i].0, hops) ==> found[i].1
            <= hops
}

/// A start node has been found.
proof fn lemma_start_is_seen(w: Walk, starts: Seq<Seq<char>>, found: Seq<Visit>, name: Seq<char>)
    requires
        walk::seeds(starts).is_prefix_of(found),
        starts.contains(name),
    ensures
        found_within(found, name, 0),
{
    lemma_seeds(w, starts);
    let k = choose|k: int| 0 <= k < starts.len() && starts[k] == name;
    let seeds = walk::seeds(starts);
    assert(walk::seen(seeds, starts[k]));
    lemma_seen_index(seeds, name);
    let j = choose|j: int| 0 <= j < seeds.len() && (#[trigger] seeds[j]).0 == name;
    assert(found[j] == seeds[j]);
}

/// When the walk deals with the node at `head`, all that is nearer has been found.
proof fn lemma_nearer_is_found(
    w: Walk,
    starts: Seq<Seq<char>>,
    found: Seq<Visit>,
    head: nat,
    name: Seq<char>,
    hops: nat,
)
    requires
        sound(w, starts, found, head),
        head < found.len(),
        closed_before(w, found, head),
        reaches(w, starts, name, hops),
        hops <= found[head as int].1,
        hops == found[head as int].1 ==> hops < w.max_depth,
    ensures
        found_within(found, name, hops),
    decreases hops,
{
    if hops == 0 {
        lemma_start_is_seen(w, starts, found, name);
    } else {
        let from = choose|from: Seq<char>| #[trigger]
            leads_to(w, from, name) && reaches(w, starts, from, (hops - 1) as nat);
        lemma_nearer_is_found(w, starts, found, head, from, (hops - 1) as nat);
        let i = choose|i: int|
            0 <= i < found.len() && (#[trigger] found[i]).0 == from && found[i].1 <= hops - 1;
        assert(i < head) by {
            if head <= i {
                assert(found[head as int].1 <= found[i].1);
            }
        }
        assert(found[head as int].1 <= w.max_depth);
        assert(closed_under(w, found, i));
        let h = choose|h: int|
            0 <= h < w.hops(from).len() && (#[trigger] w.hops(from)[h]).peer == name;
        assert(found_within(found, w.hops(found[i].0)[h].peer, found[i].1 + 1));
        let j = choose|j: int|
            0 <= j < found.len() && (#[trigger] found[j]).0 == name && found[j].1 <= found[i].1 + 1;
        assert(found[j].1 <= hops);
    }
}

/// What the node at `head` leads to is found at the length of a shortest way.
proof fn lemma_offered_are_least(
    w: Walk,
    starts: Seq<Seq<char>>,
    found: Seq<Visit>,
    head: nat,
    hops: Seq<Hop>,
)
    requires
        sound(w, starts, found, head),
        head < found.len(),
        found[head as int].1 < w.max_depth,
        closed_before(w, found, head),
        least(w, starts, found),
    ensures
        least(
            w,
            starts,
            walk::offer_all(found, hops, found[head as int].1 + 1, w.max_visited),
        ),
        found.is_prefix_of(
            walk::offer_all(found, hops, found[head as int].1 + 1, w.max_visited),
        ),
    decreases hops.len(),
{
    let depth = found[head as int].1 + 1;
    if hops.len() > 0 {
        lemma_offered_are_least(w, starts, found, head, hops.drop_last());
        let before = walk::offer_all(found, hops.drop_last(), depth, w.max_visited);
        let after = walk::offer_all(found, hops, depth, w.max_visited);
        let name = hops.last().peer;
        if after != before {
            assert(after == before.push((name, depth)));
            assert forall|i: int, k: nat|
                0 <= i < after.len() && #[trigger] reaches(w, starts, after[i].0, k) implies after[i].1
                <= k by {
                if i < before.len() {
                    assert(after[i] == before[i]);
                    assert(reaches(w, starts, before[i].0, k));
                } else if k < depth {
                    lemma_nearer_is_found(w, starts, found, head, name, k);
                    let j = choose|j: int|
                        0 <= j < found.len() && (#[trigger] found[j]).0 == name && found[j].1 <= k;
                    assert(before[j] == found[j]);
                    lemma_seen_index(before, name);
                }
            }
        }
    }
}

proof fn lemma_run_is_least(w: Walk, starts: Seq<Seq<char>>, found: Seq<Visit>, head: nat)
    requires
        sound(w, starts, found, head),
        head <= found.len(),
        found.len() < w.max_visited ==> closed_before(w, found, head),
        least(w, starts, found),
    ensures
        least(w, starts, w.run(found, head)),
    decreases
        (if w.max_visited > found.len() { w.max_visited as int } else { found.len() as int })
            - head,
{
    if head < found.len() {
        let next = w.expand(found, head as int);
        lemma_expand(w, starts, found, head);
        if w.goes_on(found[head as int], found.len()) {
            let hops = w.hops(found[head as int].0);
            walk::lemma_offer_all_len(found, hops, found[head as int].1 + 1, w.max_visited);
            lemma_offered_are_least(w, starts, found, head, hops);
        }
        if next.len() < w.max_visited {
            assert forall|i: int| 0 <= i < head + 1 && (#[trigger] next[i]).1
                < w.max_depth implies closed_under(w, next, i) by {
                assert(next[i] == found[i]);
                if i < head {
                    lemma_closed_kept(w, found, next, i);
                }
            }
        }
        lemma_run_is_least(w, starts, next, head + 1);
    }
}

pub(crate) proof fn lemma_sound_seeds(w: Walk, starts: Seq<Seq<char>>)
    ensures
        sound(w, starts, walk::seeds(starts), 0),
{
    lemma_seeds(w, starts);
    let found = walk::seeds(starts);
    assert forall|i: int| 0 <= i < found.len() implies reaches(
        w,
        starts,
        (#[trigger] found[i]).0,
        found[i].1,
    ) && found[i].1 <= w.max_depth by {}
}

/// A traversal reports no node twice.
pub proof fn law_each_node_is_found_once(w: Walk, starts: Seq<Seq<char>>)
    ensures
        walk::names_of(w.visits(starts)).no_duplicates(),
{
    lemma_sound_seeds(w, starts);
    lemma_run(w, starts, walk::seeds(starts), 0);
}

/// A traversal reports its start nodes first, and all of them.
pub proof fn law_start_nodes_come_first(w: Walk, starts: Seq<Seq<char>>)
    ensures
        walk::seeds(starts).is_prefix_of(w.visits(starts)),
        forall|k: int| 0 <= k < starts.len() ==> walk::seen(w.visits(starts), #[trigger] starts[k]),
{
    lemma_sound_seeds(w, starts);
    lemma_run(w, starts, walk::seeds(starts), 0);
    lemma_seeds(w, starts);
    let seeds = walk::seeds(starts);
    let all = w.visits(starts);
    assert forall|k: int| 0 <= k < starts.len() implies walk::seen(all, #[trigger] starts[k]) by {
        assert(walk::seen(seeds, starts[k]));
        lemma_seen_index(seeds, starts[k]);
        lemma_seen_index(all, starts[k]);
        let j = choose|j: int| 0 <= j < seeds.len() && (#[trigger] seeds[j]).0 == starts[k];
        assert(all[j] == seeds[j]);
    }
}

/// Whether `d` steps are a shortest way of the walk from a start node to `name`.
pub open spec fn is_distance(w: Walk, starts: Seq<Seq<char>>, name: Seq<char>, d: nat) -> bool {
    &&& reaches(w, starts, name, d)
    &&& forall|hops: nat| #[trigger] reaches(w, starts, name, hops) ==> d <= hops
}

/// A node is found at its distance from the start nodes: no way to it is shorter than the depth at
/// which it is found. That is so of every traversal, also of one that fills its cap.
pub proof fn law_depths_are_distances(w: Walk, starts: Seq<Seq<char>>, i: int)
    requires
        0 <= i < w.visits(starts).len(),
    ensures
        is_distance(w, starts, w.visits(starts)[i].0, w.visits(starts)[i].1),
{
    let seeds = walk::seeds(starts);
    lemma_sound_seeds(w, starts);
    lemma_seeds(w, starts);
    lemma_run(w, starts, seeds, 0);
    lemma_run_is_least(w, starts, seeds, 0);
}

/// The order of a traversal is breadth-first: nearest first. The depths of the nodes rise along it,
/// and so do their distances from the start nodes.
pub proof fn law_nearest_first(w: Walk, starts: Seq<Seq<char>>, i: int, j: int)
    requires
        0 <= i <= j < w.visits(starts).len(),
    ensures
        w.visits(starts)[i].1 <= w.visits(starts)[j].1,
        forall|a: nat, b: nat| #[trigger]
            is_distance(w, starts, w.visits(starts)[i].0, a) && #[trigger] is_distance(
                w,
                starts,
                w.visits(starts)[j].0,
                b,
            ) ==> a <= b,
{
    lemma_sound_seeds(w, starts);
    lemma_run(w, starts, walk::seeds(starts), 0);
    law_depths_are_distances(w, starts, i);
    law_depths_are_distances(w, starts, j);
}

/// A node is reported only if the walk can reach it, in as many steps as its depth says, and in no
/// more than were asked for.
pub proof fn law_found_nodes_are_reachable(w: Walk, starts: Seq<Seq<char>>, i: int)
    requires
        0 <= i < w.visits(starts).len(),
    ensures
        reaches(w, starts, w.visits(starts)[i].0, w.visits(starts)[i].1),
        w.visits(starts)[i].1 <= w.max_depth,
{
    lemma_sound_seeds(w, starts);
    lemma_run(w, starts, walk::seeds(starts), 0);
}

/// A traversal that stays under its cap misses nothing: a node that the walk can reach within the
/// depth asked for is reported, at a depth no greater than the length of any way to it.
pub proof fn law_reachable_nodes_are_found(
    w: Walk,
    starts: Seq<Seq<char>>,
    name: Seq<char>,
    hops: nat,
)
    requires
        w.visits(starts).len() < w.max_visited,
        reaches(w, starts, name, hops),
        hops <= w.max_depth,
    ensures
        found_within(w.visits(starts), name, hops),
    decreases hops,
{
    let all = w.visits(starts);
    lemma_sound_seeds(w, starts);
    lemma_run(w, starts, walk::seeds(starts), 0);
    if hops == 0 {
        lemma_start_is_seen(w, starts, all, name);
    } else {
        let from = choose|from: Seq<char>| #[trigger]
            leads_to(w, from, name) && reaches(w, starts, from, (hops - 1) as nat);
        law_reachable_nodes_are_found(w, starts, from, (hops - 1) as nat);
        let i = choose|i: int|
            0 <= i < all.len() && (#[trigger] all[i]).0 == from && all[i].1 <= hops - 1;
        assert(closed_under(w, all, i));
        let h = choose|h: int|
            0 <= h < w.hops(from).len() && (#[trigger] w.hops(from)[h]).peer == name;
        assert(found_within(all, w.hops(all[i].0)[h].peer, all[i].1 + 1));
        let j = choose|j: int|
            0 <= j < all.len() && (#[trigger] all[j]).0 == name && all[j].1 <= all[i].1 + 1;
        assert(all[j].1 <= hops);
    }
}

proof fn lemma_run_len(w: Walk, found: Seq<Visit>, head: nat)
    requires
        head <= found.len(),
    ensures
        w.run(found, head).len() <= found.len() || w.run(found, head).len() <= w.max_visited,
    decreases
        (if w.max_visited > found.len() { w.max_visited as int } else { found.len() as int })
            - head,
{
    if head < found.len() {
        if w.goes_on(found[head as int], found.len()) {
            walk::lemma_offer_all_len(
                found,
                w.hops(found[head as int].0),
                found[head as int].1 + 1,
                w.max_visited,
            );
        }
        lemma_run_len(w, w.expand(found, head as int), head + 1);
    }
}

/// A traversal finds no more nodes than its cap allows, or only its start nodes where there are
/// more of those.
pub proof fn law_the_cap_holds(w: Walk, starts: Seq<Seq<char>>)
    ensures
        w.visits(starts).len() <= w.max_visited || w.visits(starts) == walk::seeds(starts),
{
    lemma_run_len(w, walk::seeds(starts), 0);
    law_start_nodes_come_first(w, starts);
    if w.visits(starts).len() > w.max_visited {
        assert(w.visits(starts) =~= walk::seeds(starts));
    }
}

proof fn lemma_hop_is_visible(w: Walk, node: Seq<char>, i: int)
    requires
        0 <= i < w.hops(node).len(),
    ensures
        visible(w.graph, w.delta, w.hops(node)[i].edge),
        w.hops(node)[i].edge.src == node && w.hops(node)[i].peer == w.hops(node)[i].edge.dst
            || w.hops(node)[i].edge.dst == node && w.hops(node)[i].peer == w.hops(node)[i].edge.src,
        wants_durable(w, w.hops(node)[i].edge.label),
        w.delta.staged.contains(w.hops(node)[i].edge) || lets_in(w, w.hops(node)[i].peer),
{
    lemma_hop_is_effective(w, node, i);
}

/// Every step of a walk follows an edge that the transaction sees, away from the node it starts at,
/// under a label that passes the filter; and only an edge that the transaction added leads to a
/// node that the frontier bitmap leaves out.
pub proof fn law_steps_follow_visible_edges(w: Walk, from: Seq<char>, to: Seq<char>)
    requires
        leads_to(w, from, to),
    ensures
        exists|e: EdgeView| #[trigger]
            visible(w.graph, w.delta, e) && (e.src == from && e.dst == to || e.dst == from && e.src
                == to) && wants_durable(w, e.label) && (w.delta.staged.contains(e) || lets_in(w, to)),
{
    let i = choose|i: int| 0 <= i < w.hops(from).len() && (#[trigger] w.hops(from)[i]).peer == to;
    lemma_hop_is_visible(w, from, i);
    assert(visible(w.graph, w.delta, w.hops(from)[i].edge));
}

proof fn lemma_edges_from(w: Walk, found: Seq<Visit>, head: nat, k: int)
    requires
        head <= found.len(),
        0 <= k < w.edges_from(found, head).len(),
    ensures
        visible(w.graph, w.delta, w.edges_from(found, head)[k]),
        wants_durable(w, w.edges_from(found, head)[k].label),
    decreases
        (if w.max_visited > found.len() { w.max_visited as int } else { found.len() as int })
            - head,
{
    if head < found.len() {
        let node = found[head as int].0;
        let here = if w.goes_on(found[head as int], found.len()) {
            walk::edges_of(w.hops(node))
        } else {
            Seq::empty()
        };
        if w.goes_on(found[head as int], found.len()) {
            walk::lemma_offer_all_len(found, w.hops(node), found[head as int].1 + 1, w.max_visited);
        }
        let next = w.expand(found, head as int);
        assert(w.edges_from(found, head) == here + w.edges_from(next, head + 1));
        if k < here.len() {
            lemma_hop_is_visible(w, node, k);
        } else {
            lemma_edges_from(w, next, head + 1, k - here.len());
        }
    }
}

/// A subgraph holds only edges that the transaction sees, under labels that pass the filter.
pub proof fn law_subgraph_edges_are_visible(w: Walk, starts: Seq<Seq<char>>, k: int)
    requires
        0 <= k < w.edges(starts).len(),
    ensures
        visible(w.graph, w.delta, w.edges(starts)[k]),
        wants_durable(w, w.edges(starts)[k].label),
{
    lemma_edges_from(w, walk::seeds(starts), 0, k);
}

/// Whether the walk follows the edge `e` when it goes on from `node`: a durable edge that passes
/// label filter, tombstones and frontier bitmap, or a staged one that passes the label filter.
pub open spec fn effective(w: Walk, node: Seq<char>, e: EdgeView) -> bool {
    ||| w.direction != Direction::In && e.src == node && leaves(w.graph, e) && wants_durable(
        w,
        e.label,
    ) && !w.delta.tombstones.contains(e) && lets_in(w, e.dst)
    ||| w.direction != Direction::Out && e.dst == node && enters(w.graph, e) && wants_durable(
        w,
        e.label,
    ) && !w.delta.tombstones.contains(e) && lets_in(w, e.src)
    ||| w.direction != Direction::In && e.src == node && w.delta.staged.contains(e) && wants_staged(
        w,
        e.label,
    )
    ||| w.direction != Direction::Out && e.dst == node && w.delta.staged.contains(e)
        && wants_staged(w, e.label)
}

/// Every step follows an effective edge.
proof fn lemma_hop_is_effective(w: Walk, node: Seq<char>, i: int)
    requires
        0 <= i < w.hops(node).len(),
    ensures
        effective(w, node, w.hops(node)[i].edge),
        w.hops(node)[i].edge.src == node && w.hops(node)[i].peer == w.hops(node)[i].edge.dst
            || w.hops(node)[i].edge.dst == node && w.hops(node)[i].peer == w.hops(node)[i].edge.src,
        w.delta.staged.contains(w.hops(node)[i].edge) || lets_in(w, w.hops(node)[i].peer),
{
    let none = Seq::<Hop>::empty();
    let a = if w.direction.follows_out() { w.durable_out(node) } else { none };
    let b = if w.direction.follows_in() { w.durable_in(node) } else { none };
    let c = if w.direction.follows_out() { w.staged_out(node) } else { none };
    let d = if w.direction.follows_in() { w.staged_in(node) } else { none };
    let hop = w.hops(node)[i];
    assert(w.hops(node) == a + b + c + d);
    if i < a.len() {
        let p = |h: HalfEdge| w.durable_passes(walk::out_edge(node, h), h.peer);
        let all = w.graph.out_of(node);
        let h = all.filter(p)[i];
        assert(hop == w.durable_out(node)[i]);
        overlay_delta::lemma_filter_membership(all, p, h);
        assert(all.filter(p).contains(h));
        assert(h == HalfEdge { label: hop.edge.label, peer: hop.edge.dst });
    } else if i < a.len() + b.len() {
        let j = i - a.len();
        let p = |h: HalfEdge| w.durable_passes(walk::in_edge(node, h), h.peer);
        let all = w.graph.in_to(node);
        let h = all.filter(p)[j];
        assert(hop == w.durable_in(node)[j]);
        overlay_delta::lemma_filter_membership(all, p, h);
        assert(all.filter(p).contains(h));
        assert(h == HalfEdge { label: hop.edge.label, peer: hop.edge.src });
    } else if i < a.len() + b.len() + c.len() {
        let j = i - a.len() - b.len();
        let p = |e: EdgeView| e.src == node && w.staged_label_passes(e.label);
        let e = w.delta.staged.filter(p)[j];
        assert(hop == w.staged_out(node)[j]);
        overlay_delta::lemma_filter_membership(w.delta.staged, p, e);
        assert(w.delta.staged.filter(p).contains(e));
    } else {
        let j = i - a.len() - b.len() - c.len();
        let p = |e: EdgeView| e.dst == node && w.staged_label_passes(e.label);
        let e = w.delta.staged.filter(p)[j];
        assert(hop == w.staged_in(node)[j]);
        overlay_delta::lemma_filter_membership(w.delta.staged, p, e);
        assert(w.delta.staged.filter(p).contains(e));
    }
}

/// Every effective edge is followed by a step.
proof fn lemma_effective_is_hop(w: Walk, node: Seq<char>, e: EdgeView) -> (i: int)
    requires
        effective(w, node, e),
    ensures
        0 <= i < w.hops(node).len(),
        w.hops(node)[i].edge == e,
{
    let none = Seq::<Hop>::empty();
    let a = if w.direction.follows_out() { w.durable_out(node) } else { none };
    let b = if w.direction.follows_in() { w.durable_in(node) } else { none };
    let c = if w.direction.follows_out() { w.staged_out(node) } else { none };
    let d = if w.direction.follows_in() { w.staged_in(node) } else { none };
    let hops = w.hops(node);
    assert(hops == a + b + c + d);
    let out = HalfEdge { label: e.label, peer: e.dst };
    let inward = HalfEdge { label: e.label, peer: e.src };
    if w.direction.follows_out() && e.src == node && w.graph.out_of(node).contains(out)
        && w.durable_passes(e, e.dst) {
        let p = |h: HalfEdge| w.durable_passes(walk::out_edge(node, h), h.peer);
        let all = w.graph.out_of(node);
        assert(walk::out_edge(node, out) == e);
        overlay_delta::lemma_filter_membership(all, p, out);
        let j = choose|j: int| 0 <= j < all.filter(p).len() && all.filter(p)[j] == out;
        assert(a[j].edge == e);
        assert(hops[j] == a[j]);
        j
    } else if w.direction.follows_in() && e.dst == node && w.graph.in_to(node).contains(inward)
        && w.durable_passes(e, e.src) {
        let p = |h: HalfEdge| w.durable_passes(walk::in_edge(node, h), h.peer);
        let all = w.graph.in_to(node);
        assert(walk::in_edge(node, inward) == e);
        overlay_delta::lemma_filter_membership(all, p, inward);
        let j = choose|j: int| 0 <= j < all.filter(p).len() && all.filter(p)[j] == inward;
        assert(b[j].edge == e);
        assert(hops[a.len() + j] == b[j]);
        a.len() + j
    } else if w.direction.follows_out() && e.src == node {
        let p = |x: EdgeView| x.src == node && w.staged_label_passes(x.label);
        let all = w.delta.staged;
        overlay_delta::lemma_filter_membership(all, p, e);
        let j = choose|j: int| 0 <= j < all.filter(p).len() && all.filter(p)[j] == e;
        assert(c[j].edge == e);
        assert(hops[a.len() + b.len() + j] == c[j]);
        a.len() + b.len() + j
    } else {
        let p = |x: EdgeView| x.dst == node && w.staged_label_passes(x.label);
        let all = w.delta.staged;
        overlay_delta::lemma_filter_membership(all, p, e);
        let j = choose|j: int| 0 <= j < all.filter(p).len() && all.filter(p)[j] == e;
        assert(d[j].edge == e);
        assert(hops[a.len() + b.len() + c.len() + j] == d[j]);
        a.len() + b.len() + c.len() + j
    }
}

/// Whether `e` is followed from a node of `found` that is nearer than the depth asked for.
pub open spec fn comes_from(w: Walk, found: Seq<Visit>, e: EdgeView) -> bool {
    exists|i: int|
        0 <= i < found.len() && (#[trigger] found[i]).1 < w.max_depth && effective(
            w,
            found[i].0,
            e,
        )
}

proof fn lemma_edge_origin(w: Walk, starts: Seq<Seq<char>>, found: Seq<Visit>, head: nat, k: int)
    requires
        sound(w, starts, found, head),
        head <= found.len(),
        0 <= k < w.edges_from(found, head).len(),
    ensures
        comes_from(w, w.run(found, head), w.edges_from(found, head)[k]),
    decreases
        (if w.max_visited > found.len() { w.max_visited as int } else { found.len() as int })
            - head,
{
    if head < found.len() {
        let v = found[head as int];
        let here = if w.goes_on(v, found.len()) {
            walk::edges_of(w.hops(v.0))
        } else {
            Seq::empty()
        };
        if w.goes_on(v, found.len()) {
            walk::lemma_offer_all_len(found, w.hops(v.0), v.1 + 1, w.max_visited);
        }
        let next = w.expand(found, head as int);
        lemma_expand(w, starts, found, head);
        assert(w.edges_from(found, head) == here + w.edges_from(next, head + 1));
        if k < here.len() {
            lemma_run(w, starts, next, head + 1);
            lemma_hop_is_effective(w, v.0, k);
            assert(w.run(found, head)[head as int] == v);
        } else {
            lemma_edge_origin(w, starts, next, head + 1, k - here.len());
        }
    }
}

/// Every edge of a subgraph is followed from a node that was found nearer than the depth asked for.
pub proof fn law_subgraph_edges_come_from_found_nodes(w: Walk, starts: Seq<Seq<char>>, k: int)
    requires
        0 <= k < w.edges(starts).len(),
    ensures
        comes_from(w, w.visits(starts), w.edges(starts)[k]),
{
    lemma_sound_seeds(w, starts);
    lemma_edge_origin(w, starts, walk::seeds(starts), 0, k);
}

proof fn lemma_edges_are_kept(
    w: Walk,
    starts: Seq<Seq<char>>,
    found: Seq<Visit>,
    head: nat,
    i: int,
    h: int,
)
    requires
        sound(w, starts, found, head),
        head <= i < w.run(found, head).len() < w.max_visited,
        w.run(found, head)[i].1 < w.max_depth,
        0 <= h < w.hops(w.run(found, head)[i].0).len(),
        head <= found.len(),
    ensures
        w.edges_from(found, head).contains(w.hops(w.run(found, head)[i].0)[h].edge),
    decreases
        (if w.max_visited > found.len() { w.max_visited as int } else { found.len() as int })
            - head,
{
    let all = w.run(found, head);
    if head < found.len() {
        let v = found[head as int];
        lemma_run(w, starts, found, head);
        assert(found.len() <= all.len());
        let here = if w.goes_on(v, found.len()) {
            walk::edges_of(w.hops(v.0))
        } else {
            Seq::empty()
        };
        if w.goes_on(v, found.len()) {
            walk::lemma_offer_all_len(found, w.hops(v.0), v.1 + 1, w.max_visited);
        }
        let next = w.expand(found, head as int);
        lemma_expand(w, starts, found, head);
        let later = w.edges_from(next, head + 1);
        assert(w.edges_from(found, head) == here + later);
        if i == head {
            assert(all[i] == v);
            assert(here[h] == w.hops(v.0)[h].edge);
            assert((here + later)[h] == here[h]);
        } else {
            lemma_edges_are_kept(w, starts, next, head + 1, i, h);
            let e = w.hops(all[i].0)[h].edge;
            let j = choose|j: int| 0 <= j < later.len() && later[j] == e;
            assert((here + later)[here.len() + j] == e);
        }
    }
}

/// A subgraph that stays under its cap misses nothing: it holds every edge that is followed from a
/// node which the walk can reach in fewer steps than were asked for.
pub proof fn law_subgraphs_miss_nothing(
    w: Walk,
    starts: Seq<Seq<char>>,
    node: Seq<char>,
    hops: nat,
    e: EdgeView,
)
    requires
        w.visits(starts).len() < w.max_visited,
        reaches(w, starts, node, hops),
        hops < w.max_depth,
        effective(w, node, e),
    ensures
        w.edges(starts).contains(e),
{
    let all = w.visits(starts);
    law_reachable_nodes_are_found(w, starts, node, hops);
    let i = choose|i: int| 0 <= i < all.len() && (#[trigger] all[i]).0 == node && all[i].1 <= hops;
    let h = lemma_effective_is_hop(w, node, e);
    lemma_sound_seeds(w, starts);
    lemma_edges_are_kept(w, starts, walk::seeds(starts), 0, i, h);
}

/// A transaction sees the edge it has just added: every walk whose label filter and direction
/// take the edge can follow it.
pub proof fn law_added_edges_are_followed(w: Walk, delta: DeltaView, e: EdgeView)
    requires
        w.delta == delta.staging(e),
        wants_staged(w, e.label),
    ensures
        visible(w.graph, w.delta, e),
        w.direction != Direction::In ==> leads_to(w, e.src, e.dst),
        w.direction != Direction::Out ==> leads_to(w, e.dst, e.src),
{
    let none = Seq::<Hop>::empty();
    let staged = w.delta.staged;
    assert(staged.contains(e)) by {
        if !delta.staged.contains(e) {
            assert(staged[staged.len() - 1] == e);
        }
    }
    if w.direction.follows_out() {
        let a = w.durable_out(e.src);
        let b = if w.direction.follows_in() { w.durable_in(e.src) } else { none };
        let p = |x: EdgeView| x.src == e.src && w.staged_label_passes(x.label);
        overlay_delta::lemma_filter_membership(staged, p, e);
        let j = choose|j: int| 0 <= j < staged.filter(p).len() && staged.filter(p)[j] == e;
        assert(w.staged_out(e.src)[j] == Hop { edge: e, peer: e.dst });
        assert(w.hops(e.src)[a.len() + b.len() + j] == w.staged_out(e.src)[j]);
    }
    if w.direction.follows_in() {
        let a = if w.direction.follows_out() { w.durable_out(e.dst) } else { none };
        let b = w.durable_in(e.dst);
        let c = if w.direction.follows_out() { w.staged_out(e.dst) } else { none };
        let p = |x: EdgeView| x.dst == e.dst && w.staged_label_passes(x.label);
        overlay_delta::lemma_filter_membership(staged, p, e);
        let j = choose|j: int| 0 <= j < staged.filter(p).len() && staged.filter(p)[j] == e;
        assert(w.staged_in(e.dst)[j] == Hop { edge: e, peer: e.src });
        assert(w.hops(e.dst)[a.len() + b.len() + c.len() + j] == w.staged_in(e.dst)[j]);
    }
}

/// A transaction no longer sees the edge it has just removed: no walk follows it and no subgraph
/// holds it.
pub proof fn law_removed_edges_are_gone(
    w: Walk,
    delta: DeltaView,
    e: EdgeView,
    starts: Seq<Seq<char>>,
)
    requires
        w.delta == delta.tombstoning(e),
    ensures
        !visible(w.graph, w.delta, e),
        forall|node: Seq<char>, i: int|
            0 <= i < w.hops(node).len() ==> (#[trigger] w.hops(node)[i]).edge != e,
        !w.edges(starts).contains(e),
{
    let p = walk::any_but(e);
    overlay_delta::lemma_filter_membership(delta.staged, p, e);
    assert(w.delta.staged == delta.staged.filter(p));
    assert forall|node: Seq<char>, i: int| 0 <= i < w.hops(node).len() implies (
    #[trigger] w.hops(node)[i]).edge != e by {
        lemma_hop_is_visible(w, node, i);
    }
    if w.edges(starts).contains(e) {
        let k = choose|k: int| 0 <= k < w.edges(starts).len() && w.edges(starts)[k] == e;
        lemma_edges_from(w, walk::seeds(starts), 0, k);
    }
}

/// Adding an edge undoes its removal, and removing it undoes its addition: the last write decides.
pub proof fn law_the_last_write_decides(graph: GraphView, delta: DeltaView, e: EdgeView)
    ensures
        visible(graph, delta.tombstoning(e).staging(e), e),
        !visible(graph, delta.staging(e).tombstoning(e), e),
{
    let back = delta.tombstoning(e).staging(e);
    if !delta.tombstoning(e).staged.contains(e) {
        assert(back.staged[back.staged.len() - 1] == e);
    }
    assert(back.staged.contains(e));
    let p = walk::any_but(e);
    overlay_delta::lemma_filter_membership(delta.staging(e).staged, p, e);
    assert(delta.staging(e).tombstoning(e).staged == delta.staging(e).staged.filter(p));
}

/// A transaction that has written nothing sees the index as it is.
pub proof fn law_an_empty_transaction_changes_nothing(
    graph: GraphView,
    params: BfsParams<'_>,
    delta: &GraphOverlayDelta,
)
    requires
        delta@.staged.len() == 0,
        delta@.tombstones == Set::<EdgeView>::empty(),
    ensures
        traversal_overlay::walk_of(graph, params, traversal_overlay::writes_of(Some(delta)))
            == traversal_overlay::walk_of(graph, params, traversal_overlay::writes_of(None)),
{
    assert(delta@.staged =~= Seq::empty());
}

} // verus!
