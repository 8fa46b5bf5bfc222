//! The edges that an open transaction has added and removed.
//!
//! The last write to an edge decides: an edge that is staged and then tombstoned is gone, and one
//! that is tombstoned and then staged is back.

use vstd::prelude::*;

use super::walk;
use super::walk::{DeltaView, EdgeView};
use crate::text::same_text;

verus! {

broadcast use vstd::seq_lib::group_seq_properties;

/// A directed, labelled edge.
#[derive(Debug, Clone)]
pub struct Edge {
    pub src: String,
    pub label: String,
    pub dst: String,
}

impl View for Edge {
    type V = EdgeView;

    open spec fn view(&self) -> EdgeView {
        EdgeView { src: self.src@, label: self.label@, dst: self.dst@ }
    }
}

/// The views of a list of edges.
pub open spec fn edge_views(list: Seq<Edge>) -> Seq<EdgeView> {
    list.map_values(|e: Edge| e@)
}

impl Edge {
    fn new(src: &str, label: &str, dst: &str) -> (r: Self)
        ensures
            r@ == (EdgeView { src: src@, label: label@, dst: dst@ }),
    {
        Edge { src: src.to_owned(), label: label.to_owned(), dst: dst.to_owned() }
    }

    /// Whether this edge joins these nodes under this label.
    fn is(&self, src: &str, label: &str, dst: &str) -> (r: bool)
        ensures
            r == (self@ == EdgeView { src: src@, label: label@, dst: dst@ }),
    {
        same_text(self.src.as_str(), src) && same_text(self.label.as_str(), label) && same_text(
            self.dst.as_str(),
            dst,
        )
    }
}

/// The writes of one transaction to the graph.
pub struct GraphOverlayDelta {
    staged: Vec<Edge>,
    tombstones: Vec<Edge>,
}

impl View for GraphOverlayDelta {
    type V = DeltaView;

    closed spec fn view(&self) -> DeltaView {
        DeltaView {
            staged: edge_views(self.staged@),
            tombstones: edge_views(self.tombstones@).to_set(),
        }
    }
}

/// Whether `list` holds the edge.
fn holds(list: &Vec<Edge>, src: &str, label: &str, dst: &str) -> (r: bool)
    ensures
        r == edge_views(list@).contains(EdgeView { src: src@, label: label@, dst: dst@ }),
{
    let ghost wanted = EdgeView { src: src@, label: label@, dst: dst@ };
    let mut i: usize = 0;
    while i < list.len()
        invariant
            i <= list@.len(),
            wanted == (EdgeView { src: src@, label: label@, dst: dst@ }),
            forall|k: int| 0 <= k < i ==> (#[trigger] list@[k])@ != wanted,
        decreases list@.len() - i,
    {
        if list[i].is(src, label, dst) {
            assert(edge_views(list@)[i as int] == wanted);
            return true;
        }
        i += 1;
    }
    assert forall|k: int| 0 <= k < edge_views(list@).len() implies edge_views(list@)[k]
        != wanted by {
        assert(edge_views(list@)[k] == list@[k]@);
    }
    false
}

/// Takes every occurrence of the edge out of `list`.
fn drop_edge(list: &mut Vec<Edge>, src: &str, label: &str, dst: &str)
    ensures
        edge_views(final(list)@) == edge_views(old(list)@).filter(
            walk::any_but(EdgeView { src: src@, label: label@, dst: dst@ }),
        ),
{
    let ghost all = edge_views(list@);
    let ghost keep = walk::any_but(EdgeView { src: src@, label: label@, dst: dst@ });
    let ghost mut k: int = 0;
    let mut i: usize = 0;
    assert(all.take(0).filter(keep) =~= Seq::empty()) by {
        reveal(Seq::filter);
    }
    assert(edge_views(list@) =~= all.take(0).filter(keep) + all.skip(0));
    while i < list.len()
        invariant
            0 <= k <= all.len(),
            keep == walk::any_but(EdgeView { src: src@, label: label@, dst: dst@ }),
            i == all.take(k).filter(keep).len(),
            edge_views(list@) == all.take(k).filter(keep) + all.skip(k),
        decreases all.len() - k,
    {
        let ghost before = list@;
        assert(k < all.len()) by {
            assert(edge_views(list@).len() == list@.len());
        }
        assert(edge_views(before)[i as int] == before[i as int]@);
        assert(before[i as int]@ == all[k]);
        assert(all.take(k + 1) =~= all.take(k).push(all[k]));
        proof {
            all.take(k).lemma_filter_push(all[k], keep);
        }
        if list[i].is(src, label, dst) {
            list.remove(i);
            assert(edge_views(list@) =~= all.take(k + 1).filter(keep) + all.skip(k + 1)) by {
                assert(edge_views(list@) =~= edge_views(before).remove(i as int));
                assert(all.take(k + 1).filter(keep) == all.take(k).filter(keep));
            }
        } else {
            i += 1;
            assert(edge_views(list@) =~= all.take(k + 1).filter(keep) + all.skip(k + 1)) by {
                assert(all.take(k + 1).filter(keep) == all.take(k).filter(keep).push(all[k]));
            }
        }
        proof {
            k = k + 1;
        }
    }
    proof {
        assert(all.skip(k).len() == 0);
        assert(all.take(k) =~= all);
        assert(edge_views(list@) =~= all.filter(keep));
    }
}

impl GraphOverlayDelta {
    pub fn new() -> (r: Self)
        ensures
            r@.staged == Seq::<EdgeView>::empty(),
            r@.tombstones == Set::<EdgeView>::empty(),
    {
        let r = GraphOverlayDelta { staged: Vec::new(), tombstones: Vec::new() };
        assert(edge_views(r.staged@) =~= Seq::empty());
        assert(edge_views(r.tombstones@) =~= Seq::empty());
        assert(r@.tombstones =~= Set::empty());
        r
    }

    /// Whether the transaction has written nothing.
    pub fn is_empty(&self) -> (r: bool)
        ensures
            r == (self@.staged.len() == 0 && self@.tombstones == Set::<EdgeView>::empty()),
    {
        proof {
            if self.tombstones@.len() > 0 {
                assert(edge_views(self.tombstones@)[0] == self.tombstones@[0]@);
                assert(self@.tombstones.contains(self.tombstones@[0]@));
            } else {
                assert(self@.tombstones =~= Set::empty());
            }
        }
        self.staged.len() == 0 && self.tombstones.len() == 0
    }

    /// Adds an edge, undoing an earlier tombstone of it.
    pub fn stage_edge(&mut self, src: &str, label: &str, dst: &str)
        ensures
            final(self)@ == old(self)@.staging(EdgeView { src: src@, label: label@, dst: dst@ }),
    {
        let ghost e = EdgeView { src: src@, label: label@, dst: dst@ };
        let ghost before = *self;
        drop_edge(&mut self.tombstones, src, label, dst);
        proof {
            let keep = walk::any_but(e);
            let all = edge_views(before.tombstones@);
            assert(self@.tombstones =~= before@.tombstones.remove(e)) by {
                assert forall|x: EdgeView| self@.tombstones.contains(x) <==> #[trigger]
                    before@.tombstones.remove(e).contains(x) by {
                    lemma_filter_membership(all, keep, x);
                }
            }
        }
        if !holds(&self.staged, src, label, dst) {
            self.staged.push(Edge::new(src, label, dst));
            assert(edge_views(self.staged@) =~= edge_views(before.staged@).push(e));
        }
    }

    /// Removes an edge, undoing an earlier staging of it.
    pub fn stage_tombstone(&mut self, src: &str, label: &str, dst: &str)
        ensures
            final(self)@ == old(self)@.tombstoning(
                EdgeView { src: src@, label: label@, dst: dst@ },
            ),
    {
        let ghost e = EdgeView { src: src@, label: label@, dst: dst@ };
        let ghost before = *self;
        drop_edge(&mut self.staged, src, label, dst);
        if !holds(&self.tombstones, src, label, dst) {
            self.tombstones.push(Edge::new(src, label, dst));
            assert(edge_views(self.tombstones@) =~= edge_views(before.tombstones@).push(e));
        }
        assert(self@.tombstones =~= before@.tombstones.insert(e));
    }

    /// Whether the transaction removed the edge.
    pub fn is_tombstoned(&self, src: &str, label: &str, dst: &str) -> (r: bool)
        ensures
            r == self@.tombstones.contains(EdgeView { src: src@, label: label@, dst: dst@ }),
    {
        holds(&self.tombstones, src, label, dst)
    }

    /// The edges that the transaction added, oldest first.
    pub fn staged_edges(&self) -> (r: &Vec<Edge>)
        ensures
            edge_views(r@) == self@.staged,
    {
        &self.staged
    }
}

/// A filtered sequence holds exactly the elements of the sequence that pass.
pub proof fn lemma_filter_membership<A>(s: Seq<A>, p: spec_fn(A) -> bool, x: A)
    ensures
        s.filter(p).contains(x) <==> s.contains(x) && p(x),
    decreases s.len(),
{
    reveal(Seq::filter);
    if s.len() > 0 {
        let rest = s.drop_last();
        lemma_filter_membership(rest, p, x);
        assert(s =~= rest.push(s.last()));
        if p(s.last()) {
            assert(s.filter(p) == rest.filter(p).push(s.last()));
        }
    }
}

} // verus!
