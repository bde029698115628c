//! The bookkeeping of an edit that replaces shapes by one computed shape
//! (the boolean operations): recording the nodes it takes out, removing
//! them, and storing them again when the edit is undone. The shape itself
//! is computed by the caller.

use vstd::prelude::*;
use crate::arena::{LayerId, NodeId};
use crate::deep_copy::same_node;
use crate::doc::{same_but_nodes, Document, Node};
use crate::seqs::seq_without;
use crate::edits::{
    entries_restored, ids_for, lemma_ids_for_contains, lemma_live_entries_all, live_entries, lemma_strip_push, lemma_without_all_push, nodes_stripped, owned_nodes, restore_entries, strip,
    without_all,
};

verus! {

/// `x` is a node of `d` that some layer of `d` lists.
pub open spec fn listed_node(d: Document, x: NodeId) -> bool {
    d.node_map().dom().contains(x) && owned_nodes(d).contains(x)
}

/// The ids of `ids` that are listed nodes of `d`, in order, repeats kept.
pub open spec fn listed_ids(d: Document, ids: Seq<NodeId>) -> Seq<NodeId>
    decreases ids.len(),
{
    if ids.len() == 0 {
        seq![]
    } else if listed_node(d, ids.last()) {
        listed_ids(d, ids.drop_last()).push(ids.last())
    } else {
        listed_ids(d, ids.drop_last())
    }
}

/// The ids of recorded nodes, in order.
pub open spec fn recorded_ids(r: Seq<(NodeId, Node, LayerId)>) -> Seq<NodeId> {
    r.map_values(|e: (NodeId, Node, LayerId)| e.0)
}

/// `r` records, for each listed node of `d` among `ids`, in order, its id, a
/// copy of it, and the layer that lists it.
pub open spec fn records(d: Document, ids: Seq<NodeId>, r: Seq<(NodeId, Node, LayerId)>) -> bool {
    let l = listed_ids(d, ids);
    &&& r.len() == l.len()
    &&& forall|i: int| #![trigger r[i]] 0 <= i < r.len() ==> {
        &&& r[i].0 == l[i]
        &&& d.owns(r[i].2, r[i].0)
        &&& same_node(d.node_map()[r[i].0], r[i].1)
    }
}

/// Record each of `ids` that is a node some layer lists: its id, a copy of
/// the node and that layer.
pub fn record_nodes(doc: &Document, ids: &Vec<NodeId>) -> (r: Vec<(NodeId, Node, LayerId)>)
    ensures
        records(*doc, ids@, r@),
{
    let mut r: Vec<(NodeId, Node, LayerId)> = Vec::new();
    let mut i: usize = 0;
    proof {
        assert(ids@.take(0) =~= Seq::<NodeId>::empty());
    }
    while i < ids.len()
        invariant
            i <= ids@.len(),
            records(*doc, ids@.take(i as int), r@),
        decreases ids@.len() - i,
    {
        let id = ids[i];
        let ghost t0 = ids@.take(i as int);
        let ghost t1 = ids@.take(i + 1);
        let ghost r0 = r@;
        proof {
            assert(t1.drop_last() =~= t0);
            assert(t1.last() == id);
        }
        match doc.node(id) {
            Some(node) => {
                match doc.layer_of(id) {
                    Some(lid) => {
                        proof {
                            assert(owned_nodes(*doc).contains(id));
                        }
                        r.push((id, node.duplicate(), lid));
                        proof {
                            assert(listed_ids(*doc, t1) == listed_ids(*doc, t0).push(id));
                            assert forall|j: int| #![trigger r@[j]] 0 <= j < r@.len() implies {
                                &&& r@[j].0 == listed_ids(*doc, t1)[j]
                                &&& doc.owns(r@[j].2, r@[j].0)
                                &&& same_node(doc.node_map()[r@[j].0], r@[j].1)
                            } by {
                                if j < r0.len() {
                                    assert(r@[j] == r0[j]);
                                }
                            }
                        }
                    },
                    None => {
                        proof {
                            assert(!owned_nodes(*doc).contains(id));
                            assert(listed_ids(*doc, t1) == listed_ids(*doc, t0));
                        }
                    },
                }
            },
            None => {
                proof {
                    assert(listed_ids(*doc, t1) == listed_ids(*doc, t0));
                }
            },
        }
        i += 1;
    }
    proof {
        assert(ids@.take(ids@.len() as int) =~= ids@);
    }
    r
}

/// Remove every recorded node from the document, in order.
pub fn remove_recorded(doc: &mut Document, recorded: &Vec<(NodeId, Node, LayerId)>)
    ensures
        nodes_stripped(*old(doc), *final(doc), recorded_ids(recorded@)),
        old(doc).wf() ==> final(doc).wf(),
{
    let ghost d0 = *old(doc);
    let ghost ids = recorded_ids(recorded@);
    let mut i: usize = 0;
    proof {
        assert(ids.take(0) =~= Seq::<NodeId>::empty());
        assert(d0.node_map().remove_keys(ids.take(0).to_set()) =~= d0.node_map());
        assert(strip(d0.node_map(), ids.take(0)) == Seq::<NodeId>::empty());
    }
    while i < recorded.len()
        invariant
            i <= recorded@.len(),
            ids == recorded_ids(recorded@),
            ids.len() == recorded@.len(),
            d0 == *old(doc),
            nodes_stripped(d0, *doc, ids.take(i as int)),
            d0.wf() ==> doc.wf(),
        decreases recorded@.len() - i,
    {
        let id = recorded[i].0;
        let ghost dp = *doc;
        let ghost t0 = ids.take(i as int);
        let _ = doc.remove_node(id);
        proof {
            let t1 = ids.take(i + 1);
            assert(ids[i as int] == id);
            assert(t1 =~= t0.push(id));
            lemma_strip_push(d0.node_map(), t0, id);
            assert(t1.to_set() =~= t0.to_set().insert(id)) by {
                assert forall|y: NodeId| t1.contains(y) <==> (t0.contains(y) || y == id) by {
                    if t1.contains(y) && y != id {
                        let j = choose|j: int| 0 <= j < t1.len() && t1[j] == y;
                        assert(t0[j] == y);
                    }
                    if t0.contains(y) {
                        let j = choose|j: int| 0 <= j < t0.len() && t0[j] == y;
                        assert(t1[j] == y);
                    }
                    assert(t1[i as int] == id);
                }
            }
            assert(doc.node_map() =~= d0.node_map().remove_keys(t1.to_set()));
            let s0 = strip(d0.node_map(), t0);
            if dp.node_map().dom().contains(id) {
                assert(strip(d0.node_map(), t1) == s0.push(id));
                assert forall|k: LayerId| #[trigger] doc.layer_map().dom().contains(k) implies
                    doc.layer_map()[k].nodes@ == without_all(d0.layer_map()[k].nodes@, strip(d0.node_map(), t1)) by {
                    lemma_without_all_push(d0.layer_map()[k].nodes@, s0, id);
                }
            } else {
                assert(strip(d0.node_map(), t1) =~= s0);
            }
        }
        i += 1;
    }
    proof {
        assert(ids.take(ids.len() as int) =~= ids);
    }
}

/// Store copies of the recorded nodes again, in order, each under a fresh id
/// and listed on top of its recorded layer (if the document has it).
pub fn restore_recorded(doc: &mut Document, recorded: &Vec<(NodeId, Node, LayerId)>)
    requires
        old(doc).node_map().dom().finite(),
        old(doc).node_room(recorded@.len()),
    ensures
        exists|es: Seq<(LayerId, Node)>| {
            &&& es.len() == recorded@.len()
            &&& forall|i: int| #![trigger es[i]] 0 <= i < es.len()
                ==> es[i].0 == recorded@[i].2 && same_node(recorded@[i].1, es[i].1)
            &&& entries_restored(*old(doc), *final(doc), es)
        },
        old(doc).wf() ==> final(doc).wf(),
{
    let mut entries: Vec<(LayerId, Node)> = Vec::new();
    let mut i: usize = 0;
    while i < recorded.len()
        invariant
            i <= recorded@.len(),
            entries@.len() == i,
            forall|j: int| #![trigger entries@[j]] 0 <= j < i
                ==> entries@[j].0 == recorded@[j].2 && same_node(recorded@[j].1, entries@[j].1),
        decreases recorded@.len() - i,
    {
        let layer_id = recorded[i].2;
        let node = recorded[i].1.duplicate();
        entries.push((layer_id, node));
        i += 1;
    }
    restore_entries(doc, entries);
}

/// The ids `listed_ids` keeps are listed nodes taken from `s`, and distinct
/// when the ids of `s` are.
pub proof fn lemma_listed_ids(d: Document, s: Seq<NodeId>)
    ensures
        forall|i: int| 0 <= i < listed_ids(d, s).len()
            ==> listed_node(d, #[trigger] listed_ids(d, s)[i]) && s.contains(listed_ids(d, s)[i]),
        s.no_duplicates() ==> listed_ids(d, s).no_duplicates(),
    decreases s.len(),
{
    if s.len() > 0 {
        let p = s.drop_last();
        let x = s.last();
        lemma_listed_ids(d, p);
        let lp = listed_ids(d, p);
        assert(s[s.len() - 1] == x);
        assert forall|y: NodeId| p.contains(y) implies s.contains(y) by {
            let j = choose|j: int| 0 <= j < p.len() && p[j] == y;
            assert(s[j] == y);
        }
        if listed_node(d, x) {
            let ls = lp.push(x);
            assert(listed_ids(d, s) == ls);
            assert forall|i: int| 0 <= i < ls.len() implies listed_node(d, #[trigger] ls[i]) && s.contains(ls[i]) by {
                if i < lp.len() {
                    assert(ls[i] == lp[i]);
                }
            }
            if s.no_duplicates() {
                assert(p.no_duplicates()) by {
                    assert forall|i: int, j: int| 0 <= i < p.len() && 0 <= j < p.len() && i != j implies p[i] != p[j] by {
                        assert(p[i] == s[i] && p[j] == s[j]);
                    }
                }
                assert(!p.contains(x)) by {
                    if p.contains(x) {
                        let j = choose|j: int| 0 <= j < p.len() && p[j] == x;
                        assert(s[j] == x);
                    }
                }
                assert(!lp.contains(x)) by {
                    if lp.contains(x) {
                        let j = choose|j: int| 0 <= j < lp.len() && lp[j] == x;
                        assert(p.contains(lp[j]));
                    }
                }
                assert forall|i: int, j: int| 0 <= i < ls.len() && 0 <= j < ls.len() && i != j implies ls[i] != ls[j] by {
                    if i < lp.len() && j < lp.len() {
                        assert(ls[i] == lp[i] && ls[j] == lp[j]);
                    } else if i < lp.len() {
                        assert(lp.contains(lp[i]));
                    } else if j < lp.len() {
                        assert(lp.contains(lp[j]));
                    }
                }
            }
        } else {
            assert(listed_ids(d, s) == lp);
            if s.no_duplicates() {
                assert(p.no_duplicates()) by {
                    assert forall|i: int, j: int| 0 <= i < p.len() && 0 <= j < p.len() && i != j implies p[i] != p[j] by {
                        assert(p[i] == s[i] && p[j] == s[j]);
                    }
                }
            }
        }
    }
}

/// Recording the nodes of distinct ids, removing them and storing them
/// again gives back as many nodes as before: each recorded node is again
/// listed on the layer it was on, agreeing with its record, and every node
/// that was not recorded is unchanged.
pub proof fn law_remove_then_restore(
    d0: Document,
    ids: Seq<NodeId>,
    r: Seq<(NodeId, Node, LayerId)>,
    d1: Document,
    es: Seq<(LayerId, Node)>,
    d2: Document,
)
    requires
        d0.wf(),
        ids.no_duplicates(),
        records(d0, ids, r),
        nodes_stripped(d0, d1, recorded_ids(r)),
        es.len() == r.len(),
        forall|i: int| #![trigger es[i]] 0 <= i < es.len() ==> es[i].0 == r[i].2 && same_node(r[i].1, es[i].1),
        entries_restored(d1, d2, es),
    ensures
        d2.node_map().len() == d0.node_map().len(),
        forall|i: int| #![trigger r[i]] 0 <= i < r.len()
            ==> exists|n: NodeId| d2.owns(r[i].2, n) && same_node(r[i].1, #[trigger] d2.node_map()[n]),
        forall|n: NodeId| #[trigger] d0.node_map().dom().contains(n) && !recorded_ids(r).contains(n)
            ==> d2.node_map().dom().contains(n) && d2.node_map()[n] == d0.node_map()[n],
{
    let gone = recorded_ids(r);
    assert forall|i: int| 0 <= i < es.len() implies d1.layer_map().dom().contains(#[trigger] es[i].0) by {
        assert(es[i].0 == r[i].2);
        assert(d0.owns(r[i].2, r[i].0));
    }
    lemma_live_entries_all(d1, es);
    let live = live_entries(d1, es);
    let fresh = choose|fresh: Seq<NodeId>| {
        &&& fresh.len() == live.len()
        &&& fresh.no_duplicates()
        &&& forall|i: int| 0 <= i < fresh.len() ==> !d1.node_map().dom().contains(#[trigger] fresh[i])
        &&& d2.node_map().dom() == d1.node_map().dom().union(fresh.to_set())
        &&& forall|n: NodeId| #[trigger] d1.node_map().dom().contains(n) ==> d2.node_map()[n] == d1.node_map()[n]
        &&& forall|i: int| 0 <= i < fresh.len() ==> d2.node_map()[#[trigger] fresh[i]] == live[i].1
        &&& forall|k: LayerId| #[trigger] d2.layer_map().dom().contains(k) ==> {
            &&& same_but_nodes(d2.layer_map()[k], d1.layer_map()[k])
            &&& d2.layer_map()[k].nodes@ == d1.layer_map()[k].nodes@ + ids_for(live, fresh, k)
        }
    };
    lemma_listed_ids(d0, ids);
    assert(gone =~= listed_ids(d0, ids));
    assert forall|i: int| #![trigger r[i]] 0 <= i < r.len()
        implies exists|n: NodeId| d2.owns(r[i].2, n) && same_node(r[i].1, #[trigger] d2.node_map()[n]) by {
        let l = es[i].0;
        assert(d0.owns(r[i].2, r[i].0));
        lemma_ids_for_contains(es, fresh, i);
        assert(d1.layer_map().dom().contains(l));
        let tail = ids_for(es, fresh, l);
        let jj = choose|jj: int| 0 <= jj < tail.len() && tail[jj] == fresh[i];
        let full = d1.layer_map()[l].nodes@ + tail;
        assert(full[d1.layer_map()[l].nodes@.len() + jj] == fresh[i]);
        assert(d2.owns(l, fresh[i]));
        assert(d2.node_map()[fresh[i]] == es[i].1);
    }
    assert forall|n: NodeId| #[trigger] d0.node_map().dom().contains(n) && !gone.contains(n)
        implies d2.node_map().dom().contains(n) && d2.node_map()[n] == d0.node_map()[n] by {
        assert(d1.node_map().dom().contains(n));
    }
    // The count: |d0| - |gone| after the removal, then |gone| fresh ids.
    let g = gone.to_set();
    gone.unique_seq_to_set();
    fresh.unique_seq_to_set();
    let dom0 = d0.node_map().dom();
    assert forall|n: NodeId| g.contains(n) implies dom0.contains(n) by {
        let i = choose|i: int| 0 <= i < gone.len() && gone[i] == n;
        assert(listed_node(d0, gone[i]));
    }
    assert(dom0.intersect(g) =~= g);
    vstd::set_lib::lemma_set_difference_len(dom0, g);
    assert(d1.node_map().dom() =~= dom0.difference(g));
    assert(d1.node_map().dom().disjoint(fresh.to_set())) by {
        assert forall|n: NodeId| fresh.to_set().contains(n) implies !d1.node_map().dom().contains(n) by {
            let i = choose|i: int| 0 <= i < fresh.len() && fresh[i] == n;
        }
    }
    vstd::set_lib::lemma_set_disjoint_lens(d1.node_map().dom(), fresh.to_set());
}

/// Removing the recorded nodes leaves a document no larger, so the room
/// for `k` more nodes stays.
proof fn lemma_stripped_room(d0: Document, d1: Document, ids: Seq<NodeId>, k: nat)
    requires
        d0.node_map().dom().finite(),
        d0.node_room(k),
        nodes_stripped(d0, d1, ids),
    ensures
        d1.node_map().dom().finite(),
        d1.node_room(k),
{
    assert(d1.node_map().dom().subset_of(d0.node_map().dom()));
    vstd::set_lib::lemma_len_subset(d1.node_map().dom(), d0.node_map().dom());
}

/// `d1` is `d0` after `Document::remove_node(id)`: the node is gone from
/// the store and from every layer's list.
pub open spec fn taken_out(d0: Document, d1: Document, id: NodeId) -> bool {
    &&& d1.node_map() == d0.node_map().remove(id)
    &&& d1.layer_map().dom() == d0.layer_map().dom()
    &&& forall|l: LayerId| #[trigger] d1.layer_map().dom().contains(l) ==> {
        &&& same_but_nodes(d1.layer_map()[l], d0.layer_map()[l])
        &&& d1.layer_map()[l].nodes@ == (if d0.node_map().dom().contains(id) {
            seq_without(d0.layer_map()[l].nodes@, id)
        } else {
            d0.layer_map()[l].nodes@
        })
    }
    &&& d1.layers@ == d0.layers@
    &&& d1.same_meta(&d0)
}

/// `d1` is `d0` with `node` stored under the fresh id `n` and listed on top
/// of layer `l`.
pub open spec fn node_added(d0: Document, d1: Document, l: LayerId, node: Node, n: NodeId) -> bool {
    &&& !d0.node_map().dom().contains(n)
    &&& d1.node_map() == d0.node_map().insert(n, node)
    &&& d1.layer_map().dom() == d0.layer_map().dom()
    &&& d1.layer_map()[l].nodes@ == d0.layer_map()[l].nodes@.push(n)
    &&& same_but_nodes(d1.layer_map()[l], d0.layer_map()[l])
    &&& forall|k: LayerId| k != l ==> #[trigger] d1.layer_map()[k] == d0.layer_map()[k]
    &&& d1.layers@ == d0.layers@
    &&& d1.same_meta(&d0)
}

/// What the first apply of a boolean operation decided from the shapes'
/// bounds (floating-point work done by the caller).
pub enum CombineOutcome {
    /// The shapes are recorded and kept: their intersection is empty.
    Keep,
    /// The shapes are removed and nothing replaces them: the subtracted
    /// shape covers the other.
    Remove,
    /// The shapes are replaced by this one.
    Replace(Node),
}

/// The state of a boolean operation's undo step: the nodes it took out,
/// the node it put in and a copy of it, and the layer it goes on.
pub struct Combination {
    pub original_nodes: Vec<(NodeId, Node, LayerId)>,
    pub created_node_id: Option<NodeId>,
    pub created_node: Option<Node>,
    pub target_layer_id: Option<LayerId>,
}

impl Combination {
    /// Nothing recorded yet.
    pub fn new() -> (c: Combination)
        ensures
            c.original_nodes@.len() == 0,
            c.created_node_id is None,
            c.created_node is None,
            c.target_layer_id is None,
    {
        Combination { original_nodes: Vec::new(), created_node_id: None, created_node: None, target_layer_id: None }
    }

    /// The first apply, once the caller has found the shapes' layer and
    /// the outcome: the listed nodes among `node_ids` are recorded and the
    /// layer kept; then, as the outcome says, the document is left as it
    /// is, the recorded nodes are removed, or they are removed and the new
    /// shape (a copy of which is kept) is added on top of the layer.
    pub fn combine(&mut self, doc: &mut Document, node_ids: &Vec<NodeId>, layer: LayerId, outcome: CombineOutcome)
        requires
            old(doc).node_map().dom().finite(),
            old(doc).node_room(1),
        ensures
            final(self).target_layer_id == Some(layer),
            records(*old(doc), node_ids@, final(self).original_nodes@),
            match outcome {
                CombineOutcome::Keep => {
                    &&& *final(doc) == *old(doc)
                    &&& final(self).created_node_id == old(self).created_node_id
                    &&& final(self).created_node == old(self).created_node
                },
                CombineOutcome::Remove => {
                    &&& nodes_stripped(*old(doc), *final(doc), recorded_ids(final(self).original_nodes@))
                    &&& final(self).created_node_id == old(self).created_node_id
                    &&& final(self).created_node == old(self).created_node
                },
                CombineOutcome::Replace(shape) => {
                    &&& final(self).created_node matches Some(c) && same_node(shape, c)
                    &&& exists|d1: Document| {
                        &&& nodes_stripped(*old(doc), d1, recorded_ids(final(self).original_nodes@))
                        &&& if d1.layer_map().dom().contains(layer) {
                            &&& final(self).created_node_id is Some
                            &&& node_added(d1, *final(doc), layer, shape, final(self).created_node_id->0)
                        } else {
                            final(self).created_node_id is None && *final(doc) == d1
                        }
                    }
                },
            },
            old(doc).wf() ==> final(doc).wf(),
    {
        self.target_layer_id = Some(layer);
        self.original_nodes = record_nodes(doc, node_ids);
        match outcome {
            CombineOutcome::Keep => {},
            CombineOutcome::Remove => {
                remove_recorded(doc, &self.original_nodes);
            },
            CombineOutcome::Replace(shape) => {
                self.created_node = Some(shape.duplicate());
                let ghost d0 = *doc;
                remove_recorded(doc, &self.original_nodes);
                let ghost d1 = *doc;
                proof {
                    lemma_stripped_room(d0, d1, recorded_ids(self.original_nodes@), 1);
                }
                self.created_node_id = doc.add_node(layer, shape);
                proof {
                    if d1.layer_map().dom().contains(layer) {
                        let n = self.created_node_id->0;
                        assert(node_added(d1, *doc, layer, shape, n));
                    }
                }
            },
        }
    }

    /// Apply again while the created node is recorded: the recorded nodes
    /// are removed once more, and the kept copy of the created node, if
    /// any, is added again on top of the layer (the copy is used up).
    pub fn apply_again(&mut self, doc: &mut Document)
        requires
            old(doc).node_map().dom().finite(),
            old(doc).node_room(1),
        ensures
            final(self).original_nodes@ == old(self).original_nodes@,
            final(self).target_layer_id == old(self).target_layer_id,
            final(self).created_node is None,
            exists|d1: Document| {
                &&& nodes_stripped(*old(doc), d1, recorded_ids(old(self).original_nodes@))
                &&& if old(self).target_layer_id is Some && old(self).created_node is Some {
                    let l = old(self).target_layer_id->0;
                    if d1.layer_map().dom().contains(l) {
                        &&& final(self).created_node_id is Some
                        &&& node_added(d1, *final(doc), l, old(self).created_node->0, final(self).created_node_id->0)
                    } else {
                        final(self).created_node_id is None && *final(doc) == d1
                    }
                } else {
                    final(self).created_node_id == old(self).created_node_id && *final(doc) == d1
                }
            },
            old(doc).wf() ==> final(doc).wf(),
    {
        let ghost d0 = *doc;
        remove_recorded(doc, &self.original_nodes);
        let ghost d1 = *doc;
        proof {
            lemma_stripped_room(d0, d1, recorded_ids(self.original_nodes@), 1);
        }
        let created = self.created_node.take();
        match (self.target_layer_id, created) {
            (Some(layer), Some(node)) => {
                self.created_node_id = doc.add_node(layer, node);
                proof {
                    if d1.layer_map().dom().contains(layer) {
                        let n = self.created_node_id->0;
                        assert(node_added(d1, *doc, layer, node, n));
                    }
                }
            },
            _ => {},
        }
    }

    /// Undo: the created node, if recorded, is taken out of the document
    /// (what was taken out is kept as the copy), and copies of the recorded
    /// nodes are stored again, each on top of its recorded layer.
    pub fn undo(&mut self, doc: &mut Document)
        requires
            old(doc).node_map().dom().finite(),
            old(doc).node_room(old(self).original_nodes@.len()),
        ensures
            final(self).original_nodes@ == old(self).original_nodes@,
            final(self).target_layer_id == old(self).target_layer_id,
            final(self).created_node_id is None,
            exists|d1: Document, es: Seq<(LayerId, Node)>| {
                &&& match old(self).created_node_id {
                    Some(id) => {
                        &&& taken_out(*old(doc), d1, id)
                        &&& final(self).created_node == (if old(doc).node_map().dom().contains(id) {
                            Some(old(doc).node_map()[id])
                        } else {
                            None
                        })
                    },
                    None => d1 == *old(doc) && final(self).created_node == old(self).created_node,
                }
                &&& es.len() == old(self).original_nodes@.len()
                &&& forall|i: int| #![trigger es[i]] 0 <= i < es.len()
                    ==> es[i].0 == old(self).original_nodes@[i].2 && same_node(old(self).original_nodes@[i].1, es[i].1)
                &&& entries_restored(d1, *final(doc), es)
            },
            old(doc).wf() ==> final(doc).wf(),
    {
        let ghost d0 = *doc;
        match self.created_node_id.take() {
            Some(id) => {
                self.created_node = doc.remove_node(id);
            },
            None => {},
        }
        let ghost d1 = *doc;
        proof {
            assert(d1.node_map().dom().subset_of(d0.node_map().dom()));
            vstd::set_lib::lemma_len_subset(d1.node_map().dom(), d0.node_map().dom());
        }
        restore_recorded(doc, &self.original_nodes);
    }
}

} // verus!
