//! The durable adjacency index: nodes and labels interned to dense ids, and per node the list of
//! edges that leave it and that enter it.

use std::collections::HashSet;
use vstd::hash_map::StringHashMap;
use vstd::prelude::*;

use super::walk::{GraphView, HalfEdge};

verus! {

broadcast use vstd::std_specs::hash::group_hash_axioms;

/// Why an edge could not be added.
#[derive(Debug, Clone, Copy, PartialEq, Eq, Structural)]
pub enum GraphError {
    /// The dense ids of nodes or labels are used up.
    IdSpaceExhausted,
}

/// A set of node surrogates, used to gate which durable nodes a traversal may enter.
pub struct SurrogateBitmap {
    bits: HashSet<u32>,
}

impl View for SurrogateBitmap {
    type V = Set<u32>;

    closed spec fn view(&self) -> Set<u32> {
        self.bits@
    }
}

impl SurrogateBitmap {
    pub fn new() -> (r: Self)
        ensures
            r@ == Set::<u32>::empty(),
    {
        SurrogateBitmap { bits: HashSet::new() }
    }

    pub fn insert(&mut self, surrogate: u32)
        ensures
            final(self)@ == old(self)@.insert(surrogate),
    {
        self.bits.insert(surrogate);
    }

    pub fn contains(&self, surrogate: u32) -> (r: bool)
        ensures
            r == self@.contains(surrogate),
    {
        self.bits.contains(&surrogate)
    }
}

/// The durable graph index.
pub struct CsrIndex {
    node_to_id: StringHashMap<u32>,
    id_to_node: Vec<String>,
    label_to_id: StringHashMap<u32>,
    id_to_label: Vec<String>,
    out_adjacency: Vec<Vec<(u32, u32)>>,
    in_adjacency: Vec<Vec<(u32, u32)>>,
    surrogates: Vec<u32>,
}

/// Whether `ids` gives each name of `names` its position, and nothing else.
spec fn interned(ids: Map<Seq<char>, u32>, names: Seq<String>) -> bool {
    &&& names.len() <= u32::MAX
    &&& forall|i: int|
        0 <= i < names.len() ==> ids.contains_key((#[trigger] names[i])@) && ids[names[i]@] == i
    &&& forall|name: Seq<char>| #[trigger]
        ids.contains_key(name) ==> ids[name] < names.len() && names[ids[name] as int]@ == name
}

/// Whether every entry of every adjacency list names a label and a node that exist.
spec fn lists_in_range(lists: Seq<Vec<(u32, u32)>>, labels: nat, nodes: nat) -> bool {
    forall|i: int, j: int|
        0 <= i < lists.len() && 0 <= j < lists[i]@.len() ==> (#[trigger] lists[i]@[j]).0 < labels
            && lists[i]@[j].1 < nodes
}

impl CsrIndex {
    /// The adjacency list `list`, with ids replaced by the names they stand for.
    spec fn entries(self, list: Seq<(u32, u32)>) -> Seq<HalfEdge> {
        list.map_values(
            |e: (u32, u32)|
                HalfEdge {
                    label: self.id_to_label@[e.0 as int]@,
                    peer: self.id_to_node@[e.1 as int]@,
                },
        )
    }

    /// The number of nodes that have an id.
    pub closed spec fn node_count(&self) -> nat {
        self.id_to_node@.len()
    }

    /// The number of labels that have an id.
    pub closed spec fn label_count(&self) -> nat {
        self.id_to_label@.len()
    }

    /// Whether ids for two more nodes and one more label can be given out.
    pub open spec fn has_room(&self) -> bool {
        self.node_count() + 2 <= u32::MAX && self.label_count() + 1 <= u32::MAX
    }

    /// The index is well formed: ids and names correspond, and every stored id is in use.
    pub closed spec fn wf(&self) -> bool {
        &&& interned(self.node_to_id@, self.id_to_node@)
        &&& interned(self.label_to_id@, self.id_to_label@)
        &&& self.out_adjacency@.len() == self.id_to_node@.len()
        &&& self.in_adjacency@.len() == self.id_to_node@.len()
        &&& self.surrogates@.len() == self.id_to_node@.len()
        &&& lists_in_range(self.out_adjacency@, self.id_to_label@.len(), self.id_to_node@.len())
        &&& lists_in_range(self.in_adjacency@, self.id_to_label@.len(), self.id_to_node@.len())
    }
}

impl View for CsrIndex {
    type V = GraphView;

    closed spec fn view(&self) -> GraphView {
        GraphView {
            labels: self.label_to_id@.dom(),
            out_edges: self.node_to_id@.map_values(
                |id: u32| self.entries(self.out_adjacency@[id as int]@),
            ),
            in_edges: self.node_to_id@.map_values(
                |id: u32| self.entries(self.in_adjacency@[id as int]@),
            ),
            surrogates: self.node_to_id@.map_values(|id: u32| self.surrogates@[id as int]),
        }
    }
}

impl CsrIndex {
    pub fn new() -> (r: Self)
        ensures
            r.wf(),
            r.node_count() == 0,
            r.label_count() == 0,
            r@.labels == Set::<Seq<char>>::empty(),
            forall|n: Seq<char>| #[trigger] r@.out_of(n) == Seq::<HalfEdge>::empty(),
            forall|n: Seq<char>| #[trigger] r@.in_to(n) == Seq::<HalfEdge>::empty(),
            forall|n: Seq<char>| #[trigger] r@.surrogate_of(n) == 0,
    {
        CsrIndex {
            node_to_id: StringHashMap::new(),
            id_to_node: Vec::new(),
            label_to_id: StringHashMap::new(),
            id_to_label: Vec::new(),
            out_adjacency: Vec::new(),
            in_adjacency: Vec::new(),
            surrogates: Vec::new(),
        }
    }

    /// The id of `name`, given out now if it has none.
    fn intern_node(&mut self, name: &str) -> (id: u32)
        requires
            old(self).wf(),
            old(self).node_count() < u32::MAX,
        ensures
            final(self).wf(),
            final(self).node_to_id@.contains_key(name@),
            final(self).node_to_id@[name@] == id,
            final(self).node_count() <= old(self).node_count() + 1,
            final(self).id_to_label@ == old(self).id_to_label@,
            final(self).label_to_id@ == old(self).label_to_id@,
            forall|n: Seq<char>|
                old(self).node_to_id@.contains_key(n)
                    ==> #[trigger] final(self).node_to_id@.contains_key(n)
                    && final(self).node_to_id@[n] == old(self).node_to_id@[n],
            final(self)@.labels == old(self)@.labels,
            forall|n: Seq<char>| #[trigger] final(self)@.out_of(n) == old(self)@.out_of(n),
            forall|n: Seq<char>| #[trigger] final(self)@.in_to(n) == old(self)@.in_to(n),
            forall|n: Seq<char>| #[trigger] final(self)@.surrogate_of(n) == old(self)@.surrogate_of(n),
    {
        if let Some(id) = self.node_to_id.get(name) {
            return *id;
        }
        let id: u32 = self.id_to_node.len() as u32;
        let ghost before = *self;
        self.node_to_id.insert(name.to_owned(), id);
        self.id_to_node.push(name.to_owned());
        self.out_adjacency.push(Vec::new());
        self.in_adjacency.push(Vec::new());
        self.surrogates.push(0);
        proof {
            assert(interned(self.node_to_id@, self.id_to_node@)) by {
                assert forall|i: int| 0 <= i < self.id_to_node@.len() implies
                    self.node_to_id@.contains_key((#[trigger] self.id_to_node@[i])@)
                    && self.node_to_id@[self.id_to_node@[i]@] == i by {
                    if i < before.id_to_node@.len() {
                        assert(self.id_to_node@[i] == before.id_to_node@[i]);
                        assert(before.id_to_node@[i]@ != name@);
                    }
                }
            }
            assert forall|i: int, j: int| 0 <= i < self.out_adjacency@.len() && 0 <= j
                < self.out_adjacency@[i]@.len() implies (#[trigger] self.out_adjacency@[i]@[j]).0
                < self.id_to_label@.len() && self.out_adjacency@[i]@[j].1
                < self.id_to_node@.len() by {
                assert(i < before.out_adjacency@.len());
                assert(self.out_adjacency@[i]@[j] == before.out_adjacency@[i]@[j]);
            }
            assert forall|i: int, j: int| 0 <= i < self.in_adjacency@.len() && 0 <= j
                < self.in_adjacency@[i]@.len() implies (#[trigger] self.in_adjacency@[i]@[j]).0
                < self.id_to_label@.len() && self.in_adjacency@[i]@[j].1
                < self.id_to_node@.len() by {
                assert(i < before.in_adjacency@.len());
                assert(self.in_adjacency@[i]@[j] == before.in_adjacency@[i]@[j]);
            }
            assert forall|n: Seq<char>| #[trigger] self@.out_of(n) == before@.out_of(n) by {
                if n == name@ {
                    assert(self@.out_of(n) =~= Seq::empty());
                } else if before.node_to_id@.contains_key(n) {
                    assert(self@.out_of(n) =~= before@.out_of(n));
                }
            }
            assert forall|n: Seq<char>| #[trigger] self@.in_to(n) == before@.in_to(n) by {
                if n == name@ {
                    assert(self@.in_to(n) =~= Seq::empty());
                } else if before.node_to_id@.contains_key(n) {
                    assert(self@.in_to(n) =~= before@.in_to(n));
                }
            }
        }
        id
    }

    /// The id of `name` as a label, given out now if it has none.
    fn intern_label(&mut self, name: &str) -> (id: u32)
        requires
            old(self).wf(),
            old(self).label_count() < u32::MAX,
        ensures
            final(self).wf(),
            final(self).label_to_id@.contains_key(name@),
            final(self).label_to_id@[name@] == id,
            final(self).label_count() <= old(self).label_count() + 1,
            final(self).id_to_node@ == old(self).id_to_node@,
            final(self).node_to_id@ == old(self).node_to_id@,
            final(self)@.labels == old(self)@.labels.insert(name@),
            forall|n: Seq<char>| #[trigger] final(self)@.out_of(n) == old(self)@.out_of(n),
            forall|n: Seq<char>| #[trigger] final(self)@.in_to(n) == old(self)@.in_to(n),
            forall|n: Seq<char>| #[trigger] final(self)@.surrogate_of(n) == old(self)@.surrogate_of(n),
    {
        if let Some(id) = self.label_to_id.get(name) {
            assert(self@.labels =~= self@.labels.insert(name@));
            return *id;
        }
        let id: u32 = self.id_to_label.len() as u32;
        let ghost before = *self;
        self.label_to_id.insert(name.to_owned(), id);
        self.id_to_label.push(name.to_owned());
        proof {
            assert(interned(self.label_to_id@, self.id_to_label@)) by {
                assert forall|i: int| 0 <= i < self.id_to_label@.len() implies
                    self.label_to_id@.contains_key((#[trigger] self.id_to_label@[i])@)
                    && self.label_to_id@[self.id_to_label@[i]@] == i by {
                    if i < before.id_to_label@.len() {
                        assert(self.id_to_label@[i] == before.id_to_label@[i]);
                        assert(before.id_to_label@[i]@ != name@);
                    }
                }
            }
            assert forall|n: Seq<char>| #[trigger] self@.out_of(n) == before@.out_of(n) by {
                if before.node_to_id@.contains_key(n) {
                    assert(self@.out_of(n) =~= before@.out_of(n));
                }
            }
            assert forall|n: Seq<char>| #[trigger] self@.in_to(n) == before@.in_to(n) by {
                if before.node_to_id@.contains_key(n) {
                    assert(self@.in_to(n) =~= before@.in_to(n));
                }
            }
        }
        id
    }
}

impl CsrIndex {
    /// Adds the edge `src -label-> dst` at the end of both its adjacency lists. Nodes and the label
    /// that are new come into being with it.
    pub fn add_edge(&mut self, src: &str, label: &str, dst: &str) -> (r: Result<(), GraphError>)
        requires
            old(self).wf(),
        ensures
            final(self).wf(),
            r is Ok <==> old(self).has_room(),
            r is Err ==> *final(self) == *old(self),
            r is Ok ==> {
                &&& final(self).node_count() <= old(self).node_count() + 2
                &&& final(self).label_count() <= old(self).label_count() + 1
                &&& final(self)@.labels == old(self)@.labels.insert(label@)
                &&& forall|n: Seq<char>| #[trigger]
                    final(self)@.out_of(n) == (if n == src@ {
                        old(self)@.out_of(n).push(HalfEdge { label: label@, peer: dst@ })
                    } else {
                        old(self)@.out_of(n)
                    })
                &&& forall|n: Seq<char>| #[trigger]
                    final(self)@.in_to(n) == (if n == dst@ {
                        old(self)@.in_to(n).push(HalfEdge { label: label@, peer: src@ })
                    } else {
                        old(self)@.in_to(n)
                    })
                &&& forall|n: Seq<char>| #[trigger]
                    final(self)@.surrogate_of(n) == old(self)@.surrogate_of(n)
            },
    {
        if self.id_to_node.len() > (u32::MAX - 2) as usize || self.id_to_label.len() > (u32::MAX
            - 1) as usize {
            return Err(GraphError::IdSpaceExhausted);
        }
        let src_id = self.intern_node(src);
        let dst_id = self.intern_node(dst);
        assert(self.node_to_id@.contains_key(src@));
        let label_id = self.intern_label(label);
        let ghost before = *self;
        self.out_adjacency[src_id as usize].push((label_id, dst_id));
        self.in_adjacency[dst_id as usize].push((label_id, src_id));
        proof {
            let s = src_id as int;
            let d = dst_id as int;
            assert(self@.surrogates =~= before@.surrogates);
            assert forall|n: Seq<char>| #[trigger]
                self@.surrogate_of(n) == before@.surrogate_of(n) by {}
            assert forall|i: int, j: int| 0 <= i < self.out_adjacency@.len() && 0 <= j
                < self.out_adjacency@[i]@.len() implies (#[trigger] self.out_adjacency@[i]@[j]).0
                < self.id_to_label@.len() && self.out_adjacency@[i]@[j].1
                < self.id_to_node@.len() by {
                if j < before.out_adjacency@[i]@.len() {
                    assert(self.out_adjacency@[i]@[j] == before.out_adjacency@[i]@[j]);
                }
            }
            assert forall|i: int, j: int| 0 <= i < self.in_adjacency@.len() && 0 <= j
                < self.in_adjacency@[i]@.len() implies (#[trigger] self.in_adjacency@[i]@[j]).0
                < self.id_to_label@.len() && self.in_adjacency@[i]@[j].1
                < self.id_to_node@.len() by {
                if j < before.in_adjacency@[i]@.len() {
                    assert(self.in_adjacency@[i]@[j] == before.in_adjacency@[i]@[j]);
                }
            }
            assert forall|n: Seq<char>| #[trigger] self@.out_of(n) == (if n == src@ {
                before@.out_of(n).push(HalfEdge { label: label@, peer: dst@ })
            } else {
                before@.out_of(n)
            }) by {
                if before.node_to_id@.contains_key(n) {
                    let id = before.node_to_id@[n] as int;
                    assert(n == src@ <==> id == s);
                    if n == src@ {
                        assert(self.out_adjacency@[id]@ == before.out_adjacency@[id]@.push(
                            (label_id, dst_id),
                        ));
                        assert(self@.out_of(n) =~= before@.out_of(n).push(
                            HalfEdge { label: label@, peer: dst@ },
                        ));
                    } else {
                        assert(self.out_adjacency@[id]@ == before.out_adjacency@[id]@);
                        assert(self@.out_of(n) =~= before@.out_of(n));
                    }
                }
            }
            assert forall|n: Seq<char>| #[trigger] self@.in_to(n) == (if n == dst@ {
                before@.in_to(n).push(HalfEdge { label: label@, peer: src@ })
            } else {
                before@.in_to(n)
            }) by {
                if before.node_to_id@.contains_key(n) {
                    let id = before.node_to_id@[n] as int;
                    assert(n == dst@ <==> id == d);
                    if n == dst@ {
                        assert(self.in_adjacency@[id]@ == before.in_adjacency@[id]@.push(
                            (label_id, src_id),
                        ));
                        assert(self@.in_to(n) =~= before@.in_to(n).push(
                            HalfEdge { label: label@, peer: src@ },
                        ));
                    } else {
                        assert(self.in_adjacency@[id]@ == before.in_adjacency@[id]@);
                        assert(self@.in_to(n) =~= before@.in_to(n));
                    }
                }
            }
        }
        Ok(())
    }

    /// Binds `surrogate` to the node `name`; a node that the index does not know stays unknown.
    pub fn bind_surrogate(&mut self, name: &str, surrogate: u32) -> (known: bool)
        requires
            old(self).wf(),
        ensures
            final(self).wf(),
            known == old(self)@.out_edges.contains_key(name@),
            final(self).node_count() == old(self).node_count(),
            final(self).label_count() == old(self).label_count(),
            final(self)@.labels == old(self)@.labels,
            final(self)@.out_edges == old(self)@.out_edges,
            final(self)@.in_edges == old(self)@.in_edges,
            final(self)@.surrogates == (if known {
                old(self)@.surrogates.insert(name@, surrogate)
            } else {
                old(self)@.surrogates
            }),
    {
        let found = self.node_to_id.get(name);
        let id: u32 = match found {
            Some(id) => *id,
            None => {
                return false;
            },
        };
        let ghost before = *self;
        self.surrogates[id as usize] = surrogate;
        proof {
            assert(self@.out_edges =~= before@.out_edges) by {
                assert forall|n: Seq<char>| self.node_to_id@.contains_key(n) implies
                    #[trigger] self@.out_edges[n] == before@.out_edges[n] by {
                    assert(self@.out_edges[n] =~= before@.out_edges[n]);
                }
            }
            assert(self@.in_edges =~= before@.in_edges) by {
                assert forall|n: Seq<char>| self.node_to_id@.contains_key(n) implies
                    #[trigger] self@.in_edges[n] == before@.in_edges[n] by {
                    assert(self@.in_edges[n] =~= before@.in_edges[n]);
                }
            }
            assert(self@.surrogates =~= before@.surrogates.insert(name@, surrogate));
        }
        true
    }

    /// Whether some edge was ever added with this label.
    pub fn has_label(&self, label: &str) -> (r: bool)
        ensures
            r == self@.labels.contains(label@),
    {
        self.label_to_id.contains_key(label)
    }

    /// The surrogate of a node, zero where none was bound.
    pub fn node_surrogate_raw(&self, name: &str) -> (r: u32)
        requires
            self.wf(),
        ensures
            r == self@.surrogate_of(name@),
    {
        match self.node_to_id.get(name) {
            Some(id) => self.surrogates[*id as usize],
            None => 0,
        }
    }

    /// The edges that leave `node`, as pairs of label and far end, oldest first.
    pub fn dense_iter_out(&self, node: &str) -> (r: Vec<(&str, &str)>)
        requires
            self.wf(),
        ensures
            half_edges(r@) == self@.out_of(node@),
    {
        match self.node_to_id.get(node) {
            Some(id) => {
                let r = self.named(&self.out_adjacency[*id as usize]);
                r
            },
            None => {
                let r: Vec<(&str, &str)> = Vec::new();
                assert(half_edges(r@) =~= Seq::empty());
                r
            },
        }
    }

    /// The edges that enter `node`, as pairs of label and far end, oldest first.
    pub fn dense_iter_in(&self, node: &str) -> (r: Vec<(&str, &str)>)
        requires
            self.wf(),
        ensures
            half_edges(r@) == self@.in_to(node@),
    {
        match self.node_to_id.get(node) {
            Some(id) => {
                let r = self.named(&self.in_adjacency[*id as usize]);
                r
            },
            None => {
                let r: Vec<(&str, &str)> = Vec::new();
                assert(half_edges(r@) =~= Seq::empty());
                r
            },
        }
    }

    /// One adjacency list with ids replaced by names.
    fn named(&self, list: &Vec<(u32, u32)>) -> (r: Vec<(&str, &str)>)
        requires
            self.wf(),
            forall|j: int|
                0 <= j < list@.len() ==> (#[trigger] list@[j]).0 < self.id_to_label@.len()
                    && list@[j].1 < self.id_to_node@.len(),
        ensures
            half_edges(r@) == self.entries(list@),
    {
        let mut out: Vec<(&str, &str)> = Vec::new();
        let mut j: usize = 0;
        while j < list.len()
            invariant
                j <= list@.len(),
                out@.len() == j,
                forall|k: int|
                    0 <= k < list@.len() ==> (#[trigger] list@[k]).0 < self.id_to_label@.len()
                        && list@[k].1 < self.id_to_node@.len(),
                forall|k: int|
                    0 <= k < j ==> (#[trigger] out@[k]).0@ == self.id_to_label@[list@[k].0 as int]@
                        && out@[k].1@ == self.id_to_node@[list@[k].1 as int]@,
            decreases list@.len() - j,
        {
            let (label_id, peer_id) = list[j];
            out.push(
                (self.id_to_label[label_id as usize].as_str(), self.id_to_node[peer_id as usize].as_str()),
            );
            j += 1;
        }
        assert(half_edges(out@) =~= self.entries(list@));
        out
    }
}

/// What a sequence of label and far-end pairs stands for.
pub open spec fn half_edges(pairs: Seq<(&str, &str)>) -> Seq<HalfEdge> {
    pairs.map_values(|p: (&str, &str)| HalfEdge { label: p.0@, peer: p.1@ })
}

} // verus!
