//! The structural document edits: adding nodes (with their mirror copies)
//! and deleting nodes, each undoable.

use vstd::prelude::*;
use crate::arena::{LayerId, NodeId};
use crate::command::{Command, CommandStack};
use crate::doc::{same_but_nodes, Document, Node};
use crate::seqs::{lemma_push_to_set, lemma_without_absent, lemma_without_contains, seq_without};

verus! {

/// The ids actually removed when removing each of `ids` in turn from a
/// document whose nodes are `m`: those present at their turn.
pub open spec fn strip(m: Map<NodeId, Node>, ids: Seq<NodeId>) -> Seq<NodeId>
    decreases ids.len(),
{
    if ids.len() == 0 {
        seq![]
    } else if m.dom().contains(ids[0]) {
        seq![ids[0]] + strip(m.remove(ids[0]), ids.drop_first())
    } else {
        strip(m, ids.drop_first())
    }
}

/// `s` with every id of `ids` taken out, one after another.
pub open spec fn without_all(s: Seq<NodeId>, ids: Seq<NodeId>) -> Seq<NodeId>
    decreases ids.len(),
{
    if ids.len() == 0 {
        s
    } else {
        without_all(seq_without(s, ids[0]), ids.drop_first())
    }
}

/// `d1` is `d0` with `nodes` stored under the fresh, distinct `ids` and
/// listed, in order, on top of layer `l`.
pub open spec fn nodes_appended(d0: Document, d1: Document, l: LayerId, nodes: Seq<Node>, ids: Seq<NodeId>) -> bool {
    &&& ids.len() == nodes.len()
    &&& ids.no_duplicates()
    &&& forall|i: int| 0 <= i < ids.len() ==> !d0.node_map().dom().contains(#[trigger] ids[i])
    &&& d1.node_map().dom() == d0.node_map().dom().union(ids.to_set())
    &&& forall|n: NodeId| #[trigger] d0.node_map().dom().contains(n) ==> d1.node_map()[n] == d0.node_map()[n]
    &&& forall|i: int| 0 <= i < ids.len() ==> d1.node_map()[#[trigger] ids[i]] == nodes[i]
    &&& d1.layer_map().dom() == d0.layer_map().dom()
    &&& d1.layer_map()[l].nodes@ == d0.layer_map()[l].nodes@ + ids
    &&& same_but_nodes(d1.layer_map()[l], d0.layer_map()[l])
    &&& forall|k: LayerId| k != l ==> #[trigger] d1.layer_map()[k] == d0.layer_map()[k]
    &&& d1.layers@ == d0.layers@
    &&& d1.same_meta(&d0)
}

/// `d1` is `d0` after removing each of `ids` in turn.
pub open spec fn nodes_stripped(d0: Document, d1: Document, ids: Seq<NodeId>) -> bool {
    &&& d1.node_map() == d0.node_map().remove_keys(ids.to_set())
    &&& d1.layer_map().dom() == d0.layer_map().dom()
    &&& forall|k: LayerId| #[trigger] d1.layer_map().dom().contains(k) ==> {
        &&& same_but_nodes(d1.layer_map()[k], d0.layer_map()[k])
        &&& d1.layer_map()[k].nodes@ == without_all(d0.layer_map()[k].nodes@, strip(d0.node_map(), ids))
    }
    &&& d1.layers@ == d0.layers@
    &&& d1.same_meta(&d0)
}

/// Insert one or more nodes onto a layer; undo removes all of them.
pub struct AddNodeCmd {
    pub layer_id: LayerId,
    pending: Vec<Node>,
    inserted_ids: Vec<NodeId>,
    label: String,
}

impl AddNodeCmd {
    /// Nodes waiting to be inserted.
    pub closed spec fn pending_seq(&self) -> Seq<Node> {
        self.pending@
    }

    /// Ids the nodes were inserted under, in insertion order.
    pub closed spec fn inserted_seq(&self) -> Seq<NodeId> {
        self.inserted_ids@
    }

    /// The layer the nodes go to.
    pub closed spec fn target_layer(&self) -> LayerId {
        self.layer_id
    }

    pub closed spec fn label_seq(&self) -> Seq<char> {
        self.label@
    }

    /// Add one node to layer `layer_id`.
    pub fn new(layer_id: LayerId, node: Node, label: String) -> (c: AddNodeCmd)
        ensures
            c.target_layer() == layer_id,
            c.pending_seq() == seq![node],
            c.inserted_seq().len() == 0,
            c.label_seq() == label@,
    {
        let pending = vec![node];
        AddNodeCmd { layer_id, pending, inserted_ids: Vec::new(), label }
    }

    /// Add `node` followed by its mirror copies to layer `layer_id`.
    pub fn with_mirrors(layer_id: LayerId, node: Node, mirrors: Vec<Node>, label: String) -> (c: AddNodeCmd)
        ensures
            c.target_layer() == layer_id,
            c.pending_seq() == seq![node] + mirrors@,
            c.inserted_seq().len() == 0,
            c.label_seq() == label@,
    {
        let mut pending = vec![node];
        let mut mirrors = mirrors;
        pending.append(&mut mirrors);
        AddNodeCmd { layer_id, pending, inserted_ids: Vec::new(), label }
    }

    /// The id of the first inserted node, once applied.
    pub fn inserted_id(&self) -> (r: Option<NodeId>)
        ensures
            r == (if self.inserted_seq().len() > 0 {
                Some(self.inserted_seq()[0])
            } else {
                None
            }),
    {
        if self.inserted_ids.len() > 0 {
            Some(self.inserted_ids[0])
        } else {
            None
        }
    }

    /// What applying does: when nodes are pending and the layer exists, they
    /// are all stored, in order, listed on top of it and their ids recorded;
    /// when the layer does not exist, the document is unchanged. Nothing
    /// stays pending.
    pub open spec fn applied(c0: AddNodeCmd, d0: Document, c1: AddNodeCmd, d1: Document) -> bool {
        &&& c1.target_layer() == c0.target_layer()
        &&& c1.label_seq() == c0.label_seq()
        &&& if c0.pending_seq().len() == 0 {
            &&& c1.pending_seq() == c0.pending_seq()
            &&& c1.inserted_seq() == c0.inserted_seq()
            &&& d1.node_map() == d0.node_map()
            &&& d1.layer_map() == d0.layer_map()
            &&& d1.layers@ == d0.layers@
            &&& d1.same_meta(&d0)
        } else {
            &&& c1.pending_seq().len() == 0
            &&& if d0.layer_map().dom().contains(c0.target_layer()) {
                &&& c1.inserted_seq().len() == c0.inserted_seq().len() + c0.pending_seq().len()
                &&& c1.inserted_seq().take(c0.inserted_seq().len() as int) == c0.inserted_seq()
                &&& nodes_appended(d0, d1, c0.target_layer(), c0.pending_seq(),
                    c1.inserted_seq().skip(c0.inserted_seq().len() as int))
            } else {
                &&& c1.inserted_seq() == c0.inserted_seq()
                &&& d1 == d0
            }
        }
    }

    /// What undoing does: every recorded id is removed in turn, and the nodes
    /// so removed join the pending ones, in the order they were inserted.
    pub open spec fn undone(c0: AddNodeCmd, d0: Document, c1: AddNodeCmd, d1: Document) -> bool {
        &&& c1.target_layer() == c0.target_layer()
        &&& c1.label_seq() == c0.label_seq()
        &&& c1.inserted_seq().len() == 0
        &&& nodes_stripped(d0, d1, c0.inserted_seq())
        &&& c1.pending_seq() == c0.pending_seq() + strip(d0.node_map(), c0.inserted_seq()).map_values(
            |n: NodeId| d0.node_map()[n],
        )
    }
}

impl Command for AddNodeCmd {
    open spec fn spec_label(&self) -> Seq<char> {
        self.label_seq()
    }

    open spec fn apply_post(c0: AddNodeCmd, d0: Document, c1: AddNodeCmd, d1: Document) -> bool {
        AddNodeCmd::applied(c0, d0, c1, d1)
    }

    open spec fn undo_post(c0: AddNodeCmd, d0: Document, c1: AddNodeCmd, d1: Document) -> bool {
        AddNodeCmd::undone(c0, d0, c1, d1)
    }

    /// Room for every pending node.
    open spec fn apply_ready(&self, doc: &Document) -> bool {
        doc.node_map().dom().finite() && doc.node_room(self.pending_seq().len())
    }

    open spec fn undo_ready(&self, doc: &Document) -> bool {
        true
    }

    fn apply(&mut self, doc: &mut Document)
        ensures
            AddNodeCmd::applied(*old(self), *old(doc), *final(self), *final(doc)),
    {
        if self.pending.len() > 0 {
            let mut nodes: Vec<Node> = Vec::new();
            std::mem::swap(&mut nodes, &mut self.pending);
            let ghost orig = nodes@;
            let ghost d0 = *old(doc);
            let ghost ins0 = self.inserted_ids@;
            let ghost has_layer = d0.layer_map().dom().contains(self.layer_id);
            let ghost mut new_ids: Seq<NodeId> = seq![];
            let ghost mut k: nat = 0;
            proof {
                assert(orig.skip(0) =~= orig);
                if has_layer {
                    assert(d0.layer_map()[self.layer_id].nodes@ + new_ids =~= d0.layer_map()[self.layer_id].nodes@);
                    assert(d0.node_map().dom().union(new_ids.to_set()) =~= d0.node_map().dom());
                }
            }
            while nodes.len() > 0
                invariant
                    k + nodes@.len() == orig.len(),
                    nodes@ == orig.skip(k as int),
                    self.pending@.len() == 0,
                    self.layer_id == old(self).layer_id,
                    self.label@ == old(self).label@,
                    has_layer == d0.layer_map().dom().contains(self.layer_id),
                    d0 == *old(doc),
                    orig == old(self).pending@,
                    ins0 == old(self).inserted_ids@,
                    d0.node_map().dom().finite(),
                    d0.node_room(orig.len()),
                    doc.node_map().dom().finite(),
                    has_layer ==> doc.node_map().len() == d0.node_map().len() + k,
                    has_layer ==> self.inserted_ids@ == ins0 + new_ids,
                    has_layer ==> nodes_appended(d0, *doc, self.layer_id, orig.take(k as int), new_ids),
                    !has_layer ==> self.inserted_ids@ == ins0,
                    !has_layer ==> *doc == d0,
                    d0.wf() ==> doc.wf(),
                decreases nodes@.len(),
            {
                let node = nodes.remove(0);
                let ghost dp = *doc;
                assert(node == orig[k as int]);
                let r = doc.add_node(self.layer_id, node);
                let ghost n = choose|n: NodeId| {
                    &&& !dp.node_map().dom().contains(n)
                    &&& doc.node_map() == dp.node_map().insert(n, node)
                    &&& r == Some(n)
                    &&& doc.layer_map()[self.layer_id].nodes@ == dp.layer_map()[self.layer_id].nodes@.push(n)
                    &&& same_but_nodes(doc.layer_map()[self.layer_id], dp.layer_map()[self.layer_id])
                };
                match r {
                    Some(id) => {
                        self.inserted_ids.push(id);
                    },
                    None => {},
                }
                proof {
                    assert(orig.skip((k + 1) as int) =~= nodes@);
                    if has_layer {
                        let ids1 = new_ids.push(n);
                        assert(dp.layer_map().dom().contains(self.layer_id));
                        assert(!new_ids.contains(n)) by {
                            if new_ids.contains(n) {
                                let i = choose|i: int| 0 <= i < new_ids.len() && new_ids[i] == n;
                                assert(new_ids.to_set().contains(n));
                            }
                        }
                        assert(ids1.no_duplicates()) by {
                            assert forall|p: int, q: int| 0 <= p < ids1.len() && 0 <= q < ids1.len() && p != q
                                implies ids1[p] != ids1[q] by {
                                if p < new_ids.len() && q < new_ids.len() {
                                } else if p < new_ids.len() {
                                    assert(new_ids.contains(new_ids[p]));
                                } else if q < new_ids.len() {
                                    assert(new_ids.contains(new_ids[q]));
                                }
                            }
                        }
                        assert(ids1.to_set() =~= new_ids.to_set().insert(n)) by {
                            assert forall|y: NodeId| ids1.contains(y) <==> (new_ids.contains(y) || y == n) by {
                                if ids1.contains(y) && y != n {
                                    let i = choose|i: int| 0 <= i < ids1.len() && ids1[i] == y;
                                    assert(new_ids[i] == y);
                                }
                                if new_ids.contains(y) {
                                    let i = choose|i: int| 0 <= i < new_ids.len() && new_ids[i] == y;
                                    assert(ids1[i] == y);
                                }
                                assert(ids1[new_ids.len() as int] == n);
                            }
                        }
                        assert(doc.node_map().dom() =~= d0.node_map().dom().union(ids1.to_set()));
                        assert(orig.take((k + 1) as int) =~= orig.take(k as int).push(node));
                        assert forall|i: int| 0 <= i < ids1.len() implies doc.node_map()[#[trigger] ids1[i]] == orig.take((k + 1) as int)[i] by {
                            if i < new_ids.len() {
                                assert(ids1[i] == new_ids[i]);
                                assert(new_ids.to_set().contains(new_ids[i]));
                            }
                        }
                        assert forall|i: int| 0 <= i < ids1.len() implies !d0.node_map().dom().contains(#[trigger] ids1[i]) by {
                            if i < new_ids.len() {
                                assert(ids1[i] == new_ids[i]);
                            } else {
                                assert(dp.node_map().dom().contains(n) == false);
                            }
                        }
                        assert(doc.layer_map()[self.layer_id].nodes@ =~= d0.layer_map()[self.layer_id].nodes@ + ids1);
                        assert(self.inserted_ids@ =~= ins0 + ids1);
                        new_ids = ids1;
                    }
                    k = k + 1;
                }
            }
            proof {
                assert(orig.take(orig.len() as int) =~= orig);
                if has_layer {
                    assert(self.inserted_ids@.take(ins0.len() as int) =~= ins0);
                    assert(self.inserted_ids@.skip(ins0.len() as int) =~= new_ids);
                }
            }
        }
    }

    fn undo(&mut self, doc: &mut Document)
        ensures
            AddNodeCmd::undone(*old(self), *old(doc), *final(self), *final(doc)),
    {
        let mut ids: Vec<NodeId> = Vec::new();
        std::mem::swap(&mut ids, &mut self.inserted_ids);
        let ghost d0 = *old(doc);
        let ghost p0 = self.pending@;
        let ghost f = |n: NodeId| d0.node_map()[n];
        let mut i: usize = 0;
        proof {
            assert(ids@.take(0) =~= Seq::<NodeId>::empty());
            assert(d0.node_map().remove_keys(ids@.take(0).to_set()) =~= d0.node_map());
            assert(strip(d0.node_map(), ids@.take(0)) == Seq::<NodeId>::empty());
            assert(p0 + strip(d0.node_map(), ids@.take(0)).map_values(f) =~= p0);
            assert forall|k: LayerId| #[trigger] doc.layer_map().dom().contains(k) implies
                doc.layer_map()[k].nodes@ == without_all(d0.layer_map()[k].nodes@, strip(d0.node_map(), ids@.take(0))) by {
            }
        }
        while i < ids.len()
            invariant
                i <= ids@.len(),
                ids@ == old(self).inserted_ids@,
                d0 == *old(doc),
                self.inserted_ids@.len() == 0,
                self.layer_id == old(self).layer_id,
                self.label@ == old(self).label@,
                nodes_stripped(d0, *doc, ids@.take(i as int)),
                self.pending@ == p0 + strip(d0.node_map(), ids@.take(i as int)).map_values(f),
                p0 == old(self).pending@,
                f == (|n: NodeId| d0.node_map()[n]),
                d0.wf() ==> doc.wf(),
            decreases ids@.len() - i,
        {
            let id = ids[i];
            let ghost dp = *doc;
            let ghost t0 = ids@.take(i as int);
            let r = doc.remove_node(id);
            match r {
                Some(node) => {
                    self.pending.push(node);
                },
                None => {},
            }
            proof {
                let t1 = ids@.take(i + 1);
                assert(t1 =~= t0.push(id));
                lemma_strip_push(d0.node_map(), t0, id);
                assert(dp.node_map() == d0.node_map().remove_keys(t0.to_set()));
                assert(t1.to_set() =~= t0.to_set().insert(id)) by {
                    assert forall|y: NodeId| t1.contains(y) <==> (t0.contains(y) || y == id) by {
                        if t1.contains(y) && y != id {
                            let j = choose|j: int| 0 <= j < t1.len() && t1[j] == y;
                            assert(t0[j] == y);
                        }
                        if t0.contains(y) {
                            let j = choose|j: int| 0 <= j < t0.len() && t0[j] == y;
                            assert(t1[j] == y);
                        }
                        assert(t1[i as int] == id);
                    }
                }
                assert(doc.node_map() =~= d0.node_map().remove_keys(t1.to_set()));
                let s0 = strip(d0.node_map(), t0);
                if dp.node_map().dom().contains(id) {
                    assert(strip(d0.node_map(), t1) == s0.push(id));
                    assert(s0.push(id).map_values(f) =~= s0.map_values(f).push(d0.node_map()[id]));
                    assert(self.pending@ =~= p0 + strip(d0.node_map(), t1).map_values(f));
                    assert forall|k: LayerId| #[trigger] doc.layer_map().dom().contains(k) implies
                        doc.layer_map()[k].nodes@ == without_all(d0.layer_map()[k].nodes@, strip(d0.node_map(), t1)) by {
                        lemma_without_all_push(d0.layer_map()[k].nodes@, s0, id);
                    }
                } else {
                    assert(strip(d0.node_map(), t1) =~= s0);
                }
            }
            i += 1;
        }
        proof {
            assert(ids@.take(ids@.len() as int) =~= ids@);
        }
    }

    fn label(&self) -> (s: &str) {
        self.label.as_str()
    }
}

/// Adding nodes to an existing layer and undoing it gives back the document
/// exactly; the command then holds the same nodes, in the same order.
pub proof fn law_add_then_undo(c0: AddNodeCmd, d0: Document, c1: AddNodeCmd, d1: Document, c2: AddNodeCmd, d2: Document)
    requires
        d0.wf(),
        d0.layer_map().dom().contains(c0.target_layer()),
        c0.pending_seq().len() > 0,
        c0.inserted_seq().len() == 0,
        AddNodeCmd::applied(c0, d0, c1, d1),
        AddNodeCmd::undone(c1, d1, c2, d2),
    ensures
        d2.node_map() == d0.node_map(),
        same_layers(d2.layer_map(), d0.layer_map()),
        d2.layers@ == d0.layers@,
        d2.same_meta(&d0),
        c2.pending_seq() == c0.pending_seq(),
        c2.inserted_seq().len() == 0,
        c2.target_layer() == c0.target_layer(),
{
    let l = c0.layer_id;
    let ids = c1.inserted_ids@;
    assert(ids.skip(0) =~= ids);
    assert(nodes_appended(d0, d1, l, c0.pending@, ids));
    // every id is in d1 and distinct, so all are removed, in order
    lemma_strip_all(d1.node_map(), ids);
    assert(strip(d1.node_map(), ids) == ids);
    assert(d2.node_map() =~= d0.node_map()) by {
        assert forall|n: NodeId| d2.node_map().dom().contains(n) <==> d0.node_map().dom().contains(n) by {
            if d0.node_map().dom().contains(n) && ids.to_set().contains(n) {
                let i = choose|i: int| 0 <= i < ids.len() && ids[i] == n;
            }
        }
    }
    assert forall|k: LayerId| #[trigger] d2.layer_map().dom().contains(k) implies {
        &&& same_but_nodes(d2.layer_map()[k], d0.layer_map()[k])
        &&& d2.layer_map()[k].nodes@ == d0.layer_map()[k].nodes@
    } by {
        let a = d0.layer_map()[k].nodes@;
        assert forall|i: int| 0 <= i < ids.len() implies !a.contains(#[trigger] ids[i]) by {
            if a.contains(ids[i]) {
                assert(d0.owns(k, ids[i]));
            }
        }
        if k == l {
            lemma_without_all_appended(a, ids);
        } else {
            lemma_without_all_absent(a, ids);
        }
    }
    assert(c2.pending@ =~= c0.pending@) by {
        assert(ids.map_values(|n: NodeId| d1.node_map()[n]) =~= c0.pending@);
        assert(c1.pending@ + ids.map_values(|n: NodeId| d1.node_map()[n]) =~= c0.pending@);
    }
}

/// Removing distinct ids that are all present removes every one of them.
pub proof fn lemma_strip_all(m: Map<NodeId, Node>, ids: Seq<NodeId>)
    requires
        ids.no_duplicates(),
        forall|i: int| 0 <= i < ids.len() ==> m.dom().contains(#[trigger] ids[i]),
    ensures
        strip(m, ids) == ids,
    decreases ids.len(),
{
    if ids.len() > 0 {
        let rest = ids.drop_first();
        assert(m.dom().contains(ids[0]));
        assert(rest.no_duplicates()) by {
            assert forall|p: int, q: int| 0 <= p < rest.len() && 0 <= q < rest.len() && p != q
                implies rest[p] != rest[q] by {
                assert(rest[p] == ids[p + 1] && rest[q] == ids[q + 1]);
            }
        }
        assert forall|i: int| 0 <= i < rest.len() implies m.remove(ids[0]).dom().contains(#[trigger] rest[i]) by {
            assert(rest[i] == ids[i + 1]);
        }
        lemma_strip_all(m.remove(ids[0]), rest);
        assert(seq![ids[0]] + rest =~= ids);
    }
}

/// The ids a deletion of `ids` removes, in order: the first occurrence of
/// each id in `owned`.
pub open spec fn picked(owned: Set<NodeId>, ids: Seq<NodeId>) -> Seq<NodeId>
    decreases ids.len(),
{
    if ids.len() == 0 {
        seq![]
    } else if owned.contains(ids[0]) {
        seq![ids[0]] + picked(owned.remove(ids[0]), ids.drop_first())
    } else {
        picked(owned, ids.drop_first())
    }
}

/// The nodes some layer of `d` lists.
pub open spec fn owned_nodes(d: Document) -> Set<NodeId> {
    Set::new(|n: NodeId| exists|l: LayerId| d.owns(l, n))
}

/// Of the fresh ids `ids`, given in the order of `entries`, those whose
/// entry names layer `k`.
pub open spec fn ids_for(entries: Seq<(LayerId, Node)>, ids: Seq<NodeId>, k: LayerId) -> Seq<NodeId>
    decreases entries.len(),
{
    if entries.len() == 0 || ids.len() != entries.len() {
        seq![]
    } else if entries.last().0 == k {
        ids_for(entries.drop_last(), ids.drop_last(), k).push(ids.last())
    } else {
        ids_for(entries.drop_last(), ids.drop_last(), k)
    }
}

/// One more id considered by a deletion.
pub proof fn lemma_picked_push(owned: Set<NodeId>, s: Seq<NodeId>, x: NodeId)
    ensures
        picked(owned, s.push(x)) == picked(owned, s) + (if owned.contains(x) && !s.contains(x) {
            seq![x]
        } else {
            seq![]
        }),
    decreases s.len(),
{
    if s.len() == 0 {
        let one = s.push(x);
        assert(one.drop_first() =~= Seq::<NodeId>::empty());
        assert(one[0] == x);
        assert(!s.contains(x));
        assert(picked(owned, s) == Seq::<NodeId>::empty());
        if owned.contains(x) {
            assert(picked(owned, one) == seq![x] + picked(owned.remove(x), one.drop_first()));
            assert(picked(owned.remove(x), one.drop_first()) == Seq::<NodeId>::empty());
            assert(picked(owned, one) =~= seq![x]);
        } else {
            assert(picked(owned, one) == picked(owned, one.drop_first()));
        }
        assert(picked(owned, s.push(x)) =~= picked(owned, s) + (if owned.contains(x) && !s.contains(x) {
            seq![x]
        } else {
            seq![]
        }));
    } else {
        assert(s.push(x).drop_first() =~= s.drop_first().push(x));
        assert(s.push(x)[0] == s[0]);
        let o2 = if owned.contains(s[0]) { owned.remove(s[0]) } else { owned };
        lemma_picked_push(o2, s.drop_first(), x);
        assert(s.contains(x) <==> (s[0] == x || s.drop_first().contains(x))) by {
            if s.contains(x) && s[0] != x {
                let j = choose|j: int| 0 <= j < s.len() && s[j] == x;
                assert(s.drop_first()[j - 1] == x);
            }
            if s.drop_first().contains(x) {
                let j = choose|j: int| 0 <= j < s.drop_first().len() && s.drop_first()[j] == x;
                assert(s[j + 1] == x);
            }
            if s[0] == x {
                assert(s.contains(s[0]));
            }
        }
        assert((o2.contains(x) && !s.drop_first().contains(x)) == (owned.contains(x) && !s.contains(x)));
        if owned.contains(s[0]) {
            assert(picked(owned, s.push(x)) == seq![s[0]] + picked(o2, s.drop_first().push(x)));
            assert(picked(owned, s) == seq![s[0]] + picked(o2, s.drop_first()));
        } else {
            assert(picked(owned, s.push(x)) == picked(o2, s.drop_first().push(x)));
            assert(picked(owned, s) == picked(o2, s.drop_first()));
        }
        assert(picked(owned, s.push(x)) =~= picked(owned, s) + (if owned.contains(x) && !s.contains(x) {
            seq![x]
        } else {
            seq![]
        }));
    }
}

/// What a deletion picks: ids of `s` that are in `owned`.
pub proof fn lemma_picked_contains(owned: Set<NodeId>, s: Seq<NodeId>, y: NodeId)
    ensures
        picked(owned, s).contains(y) <==> (owned.contains(y) && s.contains(y)),
    decreases s.len(),
{
    if s.len() > 0 {
        let o2 = if owned.contains(s[0]) { owned.remove(s[0]) } else { owned };
        lemma_picked_contains(o2, s.drop_first(), y);
        assert(s.contains(y) <==> (s[0] == y || s.drop_first().contains(y))) by {
            if s.contains(y) && s[0] != y {
                let j = choose|j: int| 0 <= j < s.len() && s[j] == y;
                assert(s.drop_first()[j - 1] == y);
            }
            if s.drop_first().contains(y) {
                let j = choose|j: int| 0 <= j < s.drop_first().len() && s.drop_first()[j] == y;
                assert(s[j + 1] == y);
            }
            if s[0] == y {
                assert(s.contains(s[0]));
            }
        }
        if owned.contains(s[0]) {
            let p = seq![s[0]] + picked(o2, s.drop_first());
            assert(p[0] == s[0]);
            if picked(o2, s.drop_first()).contains(y) {
                let j = choose|j: int| 0 <= j < picked(o2, s.drop_first()).len() && picked(o2, s.drop_first())[j] == y;
                assert(p[j + 1] == y);
            }
            if p.contains(y) && y != s[0] {
                let j = choose|j: int| 0 <= j < p.len() && p[j] == y;
                assert(picked(o2, s.drop_first())[j - 1] == y);
            }
        }
    }
}

/// What survives taking out the ids `j` one after another.
pub proof fn lemma_without_all_contains(s: Seq<NodeId>, j: Seq<NodeId>, y: NodeId)
    ensures
        without_all(s, j).contains(y) <==> (s.contains(y) && !j.contains(y)),
    decreases j.len(),
{
    if j.len() > 0 {
        lemma_without_contains(s, j[0], y);
        lemma_without_all_contains(seq_without(s, j[0]), j.drop_first(), y);
        assert(j.contains(y) <==> (j[0] == y || j.drop_first().contains(y))) by {
            if j.contains(y) && j[0] != y {
                let i = choose|i: int| 0 <= i < j.len() && j[i] == y;
                assert(j.drop_first()[i - 1] == y);
            }
            if j.drop_first().contains(y) {
                let i = choose|i: int| 0 <= i < j.drop_first().len() && j.drop_first()[i] == y;
                assert(j[i + 1] == y);
            }
            if j[0] == y {
                assert(j.contains(j[0]));
            }
        }
    }
}

/// Delete nodes. Undo stores the removed nodes again, each on the layer it
/// was on, under new ids.
pub struct DeleteNodesCmd {
    pub node_ids: Vec<NodeId>,
    removed: Vec<(LayerId, Node)>,
    label: String,
}

impl DeleteNodesCmd {
    /// The ids to delete.
    pub closed spec fn targets(&self) -> Seq<NodeId> {
        self.node_ids@
    }

    /// Each removed node with the layer it was on, in removal order.
    pub closed spec fn removed_seq(&self) -> Seq<(LayerId, Node)> {
        self.removed@
    }

    pub closed spec fn label_seq(&self) -> Seq<char> {
        self.label@
    }

    pub fn new(node_ids: Vec<NodeId>) -> (c: DeleteNodesCmd)
        ensures
            c.targets() == node_ids@,
            c.removed_seq().len() == 0,
            c.label_seq() == "Delete"@,
    {
        DeleteNodesCmd { node_ids, removed: Vec::new(), label: String::from_str("Delete") }
    }

    /// What applying does to a well-formed document: each target that some
    /// layer lists is removed, in order, and recorded with that layer.
    pub open spec fn applied(c0: DeleteNodesCmd, d0: Document, c1: DeleteNodesCmd, d1: Document) -> bool {
        let gone = picked(owned_nodes(d0), c0.targets());
        &&& c1.targets() == c0.targets()
        &&& c1.label_seq() == c0.label_seq()
        &&& c1.removed_seq().len() == gone.len()
        &&& forall|i: int| 0 <= i < gone.len() ==> {
            &&& d0.owns(#[trigger] c1.removed_seq()[i].0, gone[i])
            &&& c1.removed_seq()[i].1 == d0.node_map()[gone[i]]
        }
        &&& d1.node_map() == d0.node_map().remove_keys(gone.to_set())
        &&& d1.layer_map().dom() == d0.layer_map().dom()
        &&& forall|k: LayerId| #[trigger] d1.layer_map().dom().contains(k) ==> {
            &&& same_but_nodes(d1.layer_map()[k], d0.layer_map()[k])
            &&& d1.layer_map()[k].nodes@ == without_all(d0.layer_map()[k].nodes@, gone)
        }
        &&& d1.layers@ == d0.layers@
        &&& d1.same_meta(&d0)
    }

    /// What undoing does: every recorded node is stored again under a fresh
    /// id and listed on top of its recorded layer; a node whose layer is
    /// gone is dropped.
    pub open spec fn undone(c0: DeleteNodesCmd, d0: Document, c1: DeleteNodesCmd, d1: Document) -> bool {
        &&& c1.targets() == c0.targets()
        &&& c1.label_seq() == c0.label_seq()
        &&& c1.removed_seq().len() == 0
        &&& entries_restored(d0, d1, c0.removed_seq())
    }
}

/// The state a deletion has reached after considering the targets `done`.
pub open spec fn deleting(d0: Document, d: Document, done: Seq<NodeId>, removed: Seq<(LayerId, Node)>) -> bool {
    let gone = picked(owned_nodes(d0), done);
    &&& removed.len() == gone.len()
    &&& forall|i: int| 0 <= i < gone.len() ==> {
        &&& d0.owns(#[trigger] removed[i].0, gone[i])
        &&& removed[i].1 == d0.node_map()[gone[i]]
    }
    &&& d.node_map() == d0.node_map().remove_keys(gone.to_set())
    &&& d.layer_map().dom() == d0.layer_map().dom()
    &&& forall|k: LayerId| #[trigger] d.layer_map().dom().contains(k) ==> {
        &&& same_but_nodes(d.layer_map()[k], d0.layer_map()[k])
        &&& d.layer_map()[k].nodes@ == without_all(d0.layer_map()[k].nodes@, gone)
    }
    &&& d.layers@ == d0.layers@
    &&& d.same_meta(&d0)
    &&& d.wf()
}

/// The id `ids[i]` appears among those given to layer `entries[i].0`.
pub proof fn lemma_ids_for_contains(entries: Seq<(LayerId, Node)>, ids: Seq<NodeId>, i: int)
    requires
        ids.len() == entries.len(),
        0 <= i < ids.len(),
    ensures
        ids_for(entries, ids, entries[i].0).contains(ids[i]),
    decreases entries.len(),
{
    let k = entries[i].0;
    if i == entries.len() - 1 {
        let r = ids_for(entries.drop_last(), ids.drop_last(), k).push(ids.last());
        assert(r[r.len() - 1] == ids[i]);
    } else {
        assert(entries.drop_last()[i] == entries[i]);
        assert(ids.drop_last()[i] == ids[i]);
        lemma_ids_for_contains(entries.drop_last(), ids.drop_last(), i);
        let r0 = ids_for(entries.drop_last(), ids.drop_last(), k);
        let jj = choose|jj: int| 0 <= jj < r0.len() && r0[jj] == ids[i];
        if entries.last().0 == k {
            assert(r0.push(ids.last())[jj] == ids[i]);
        }
    }
}

/// The entries whose layer `d` has, in order.
pub open spec fn live_entries(d: Document, entries: Seq<(LayerId, Node)>) -> Seq<(LayerId, Node)>
    decreases entries.len(),
{
    if entries.len() == 0 {
        seq![]
    } else if d.layer_map().dom().contains(entries.last().0) {
        live_entries(d, entries.drop_last()).push(entries.last())
    } else {
        live_entries(d, entries.drop_last())
    }
}

/// When `d` has the layer of every entry, all of them are live.
pub proof fn lemma_live_entries_all(d: Document, entries: Seq<(LayerId, Node)>)
    requires
        forall|i: int| 0 <= i < entries.len() ==> d.layer_map().dom().contains(#[trigger] entries[i].0),
    ensures
        live_entries(d, entries) == entries,
    decreases entries.len(),
{
    if entries.len() > 0 {
        let p = entries.drop_last();
        assert forall|i: int| 0 <= i < p.len() implies d.layer_map().dom().contains(#[trigger] p[i].0) by {
            assert(p[i] == entries[i]);
        }
        lemma_live_entries_all(d, p);
        assert(entries[entries.len() - 1] == entries.last());
        assert(p.push(entries.last()) =~= entries);
    }
}

/// Every one of `entries` whose layer `d0` has is stored again in `d1` under
/// a fresh id, the ids all distinct, and listed, in order, on top of that
/// layer; the entries of missing layers are dropped; nothing else changes.
pub open spec fn entries_restored(d0: Document, d1: Document, entries: Seq<(LayerId, Node)>) -> bool {
    let live = live_entries(d0, entries);
    &&& exists|ids: Seq<NodeId>| {
        &&& ids.len() == live.len()
        &&& ids.no_duplicates()
        &&& forall|i: int| 0 <= i < ids.len() ==> !d0.node_map().dom().contains(#[trigger] ids[i])
        &&& d1.node_map().dom() == d0.node_map().dom().union(ids.to_set())
        &&& forall|n: NodeId| #[trigger] d0.node_map().dom().contains(n) ==> d1.node_map()[n] == d0.node_map()[n]
        &&& forall|i: int| 0 <= i < ids.len() ==> d1.node_map()[#[trigger] ids[i]] == live[i].1
        &&& forall|k: LayerId| #[trigger] d1.layer_map().dom().contains(k) ==> {
            &&& same_but_nodes(d1.layer_map()[k], d0.layer_map()[k])
            &&& d1.layer_map()[k].nodes@ == d0.layer_map()[k].nodes@ + ids_for(live, ids, k)
        }
    }
    &&& d1.layer_map().dom() == d0.layer_map().dom()
    &&& d1.layers@ == d0.layers@
    &&& d1.same_meta(&d0)
}

/// Store each of `entries` again, in order, under a fresh id, listed on top
/// of the layer it names; an entry whose layer is gone is dropped.
pub fn restore_entries(doc: &mut Document, entries: Vec<(LayerId, Node)>)
    requires
        old(doc).node_map().dom().finite(),
        old(doc).node_room(entries@.len()),
    ensures
        entries_restored(*old(doc), *final(doc), entries@),
        old(doc).wf() ==> final(doc).wf(),
{
    let mut entries = entries;
    let ghost d0 = *old(doc);
    let ghost es = entries@;
    let ghost mut ids: Seq<NodeId> = seq![];
    let ghost mut k: nat = 0;
    proof {
        assert(es.skip(0) =~= es);
        assert(es.take(0) =~= Seq::<(LayerId, Node)>::empty());
        assert(d0.node_map().dom().union(ids.to_set()) =~= d0.node_map().dom());
        assert forall|l: LayerId| #[trigger] doc.layer_map().dom().contains(l) implies
            doc.layer_map()[l].nodes@ == d0.layer_map()[l].nodes@ + ids_for(live_entries(d0, es.take(0)), ids, l) by {
            assert(d0.layer_map()[l].nodes@ + Seq::<NodeId>::empty() =~= d0.layer_map()[l].nodes@);
        }
    }
    while entries.len() > 0
        invariant
            k + entries@.len() == es.len(),
            entries@ == es.skip(k as int),
            d0 == *old(doc),
            d0.node_map().dom().finite(),
            d0.node_room(es.len()),
            doc.node_map().dom().finite(),
            doc.node_map().len() == d0.node_map().len() + ids.len(),
            ids.len() == live_entries(d0, es.take(k as int)).len(),
            ids.len() <= k,
            ids.no_duplicates(),
            forall|i: int| 0 <= i < ids.len() ==> !d0.node_map().dom().contains(#[trigger] ids[i]),
            doc.node_map().dom() == d0.node_map().dom().union(ids.to_set()),
            forall|n: NodeId| #[trigger] d0.node_map().dom().contains(n) ==> doc.node_map()[n] == d0.node_map()[n],
            forall|i: int| 0 <= i < ids.len() ==> doc.node_map()[#[trigger] ids[i]] == live_entries(d0, es.take(k as int))[i].1,
            doc.layer_map().dom() == d0.layer_map().dom(),
            forall|l: LayerId| #[trigger] doc.layer_map().dom().contains(l) ==> {
                &&& same_but_nodes(doc.layer_map()[l], d0.layer_map()[l])
                &&& doc.layer_map()[l].nodes@ == d0.layer_map()[l].nodes@ + ids_for(live_entries(d0, es.take(k as int)), ids, l)
            },
            doc.layers@ == d0.layers@,
            doc.same_meta(&d0),
            d0.wf() ==> doc.wf(),
        decreases entries@.len(),
    {
        let (layer_id, node) = entries.remove(0);
        let ghost dp = *doc;
        let ghost live0 = live_entries(d0, es.take(k as int));
        let ghost e1 = es.take((k + 1) as int);
        proof {
            assert(es[k as int] == (layer_id, node));
            assert(e1.drop_last() =~= es.take(k as int));
            assert(e1.last() == (layer_id, node));
        }
        let r = doc.add_node(layer_id, node);
        proof {
            assert(es.skip((k + 1) as int) =~= entries@);
            if d0.layer_map().dom().contains(layer_id) {
                let n = choose|n: NodeId| {
                    &&& !dp.node_map().dom().contains(n)
                    &&& doc.node_map() == dp.node_map().insert(n, node)
                    &&& r == Some(n)
                    &&& doc.layer_map()[layer_id].nodes@ == dp.layer_map()[layer_id].nodes@.push(n)
                    &&& same_but_nodes(doc.layer_map()[layer_id], dp.layer_map()[layer_id])
                };
                let live1 = live0.push((layer_id, node));
                assert(live_entries(d0, e1) == live1);
                let ids1 = ids.push(n);
                assert(!ids.contains(n)) by {
                    if ids.contains(n) {
                        assert(ids.to_set().contains(n));
                    }
                }
                assert(ids1.no_duplicates()) by {
                    assert forall|p: int, q: int| 0 <= p < ids1.len() && 0 <= q < ids1.len() && p != q
                        implies ids1[p] != ids1[q] by {
                        if p < ids.len() && q < ids.len() {
                        } else if p < ids.len() {
                            assert(ids.contains(ids[p]));
                        } else if q < ids.len() {
                            assert(ids.contains(ids[q]));
                        }
                    }
                }
                assert(ids1.to_set() =~= ids.to_set().insert(n)) by {
                    assert forall|y: NodeId| ids1.contains(y) <==> (ids.contains(y) || y == n) by {
                        if ids1.contains(y) && y != n {
                            let jj = choose|jj: int| 0 <= jj < ids1.len() && ids1[jj] == y;
                            assert(ids[jj] == y);
                        }
                        if ids.contains(y) {
                            let jj = choose|jj: int| 0 <= jj < ids.len() && ids[jj] == y;
                            assert(ids1[jj] == y);
                        }
                        assert(ids1[ids.len() as int] == n);
                    }
                }
                assert(doc.node_map().dom() =~= d0.node_map().dom().union(ids1.to_set()));
                assert(doc.node_map().dom() =~= dp.node_map().dom().insert(n));
                assert(doc.node_map().len() == dp.node_map().len() + 1);
                assert forall|i: int| 0 <= i < ids1.len() implies doc.node_map()[#[trigger] ids1[i]] == live1[i].1 by {
                    if i < ids.len() {
                        assert(ids1[i] == ids[i]);
                        assert(ids.to_set().contains(ids[i]));
                    }
                }
                assert forall|i: int| 0 <= i < ids1.len() implies !d0.node_map().dom().contains(#[trigger] ids1[i]) by {
                    if i < ids.len() {
                        assert(ids1[i] == ids[i]);
                    }
                }
                assert(live1.drop_last() =~= live0);
                assert(ids1.drop_last() =~= ids);
                assert forall|l: LayerId| #[trigger] doc.layer_map().dom().contains(l) implies {
                    &&& same_but_nodes(doc.layer_map()[l], d0.layer_map()[l])
                    &&& doc.layer_map()[l].nodes@ == d0.layer_map()[l].nodes@ + ids_for(live1, ids1, l)
                } by {
                    if l == layer_id {
                        assert(ids_for(live1, ids1, l) == ids_for(live0, ids, l).push(n));
                        assert(doc.layer_map()[l].nodes@ =~= d0.layer_map()[l].nodes@ + ids_for(live1, ids1, l));
                    } else {
                        assert(ids_for(live1, ids1, l) == ids_for(live0, ids, l));
                    }
                }
                ids = ids1;
            } else {
                assert(live_entries(d0, e1) == live0);
                assert(*doc == dp);
            }
            k = k + 1;
        }
    }
    proof {
        assert(es.take(es.len() as int) =~= es);
    }
}

impl Command for DeleteNodesCmd {
    open spec fn spec_label(&self) -> Seq<char> {
        self.label_seq()
    }

    /// On a well-formed document, as `DeleteNodesCmd::applied` says; the
    /// targets are kept in any case.
    open spec fn apply_post(c0: DeleteNodesCmd, d0: Document, c1: DeleteNodesCmd, d1: Document) -> bool {
        &&& d0.wf() ==> DeleteNodesCmd::applied(c0, d0, c1, d1)
        &&& c1.targets() == c0.targets()
    }

    open spec fn undo_post(c0: DeleteNodesCmd, d0: Document, c1: DeleteNodesCmd, d1: Document) -> bool {
        DeleteNodesCmd::undone(c0, d0, c1, d1)
    }

    open spec fn apply_ready(&self, doc: &Document) -> bool {
        true
    }

    /// Room for every removed node.
    open spec fn undo_ready(&self, doc: &Document) -> bool {
        doc.node_map().dom().finite() && doc.node_room(self.removed_seq().len())
    }

    fn apply(&mut self, doc: &mut Document)
        ensures
            old(doc).wf() ==> DeleteNodesCmd::applied(*old(self), *old(doc), *final(self), *final(doc)),
            final(self).targets() == old(self).targets(),
    {
        self.removed.clear();
        let ghost d0 = *old(doc);
        let ghost owned = owned_nodes(d0);
        let mut i: usize = 0;
        proof {
            if d0.wf() {
                assert(self.node_ids@.take(0) =~= Seq::<NodeId>::empty());
                assert(picked(owned, self.node_ids@.take(0)) == Seq::<NodeId>::empty());
                assert(d0.node_map().remove_keys(Seq::<NodeId>::empty().to_set()) =~= d0.node_map());
                assert forall|k: LayerId| #[trigger] doc.layer_map().dom().contains(k) implies
                    doc.layer_map()[k].nodes@ == without_all(d0.layer_map()[k].nodes@, Seq::<NodeId>::empty()) by {}
            }
        }
        while i < self.node_ids.len()
            invariant
                i <= self.node_ids@.len(),
                self.node_ids@ == old(self).node_ids@,
                self.label@ == old(self).label@,
                d0 == *old(doc),
                owned == owned_nodes(d0),
                d0.wf() ==> deleting(d0, *doc, self.node_ids@.take(i as int), self.removed@),
            decreases self.node_ids@.len() - i,
        {
            let id = self.node_ids[i];
            let ghost dp = *doc;
            let ghost t0 = self.node_ids@.take(i as int);
            let ghost gone0 = picked(owned, t0);
            let ghost rem0 = self.removed@;
            match doc.layer_of(id) {
                Some(layer_id) => {
                    match doc.remove_node(id) {
                        Some(node) => {
                            self.removed.push((layer_id, node));
                        },
                        None => {},
                    }
                },
                None => {},
            }
            proof {
                let t1 = self.node_ids@.take(i + 1);
                assert(t1 =~= t0.push(id));
                if d0.wf() {
                    lemma_picked_push(owned, t0, id);
                    lemma_picked_contains(owned, t0, id);
                    // who owns what in the current document
                    assert forall|l: LayerId, x: NodeId| #[trigger] dp.owns(l, x)
                        <==> (d0.owns(l, x) && !gone0.contains(x)) by {
                        if d0.layer_map().dom().contains(l) {
                            lemma_without_all_contains(d0.layer_map()[l].nodes@, gone0, x);
                        }
                    }
                    let gone1 = picked(owned, t1);
                    assert(t1.to_set() == t0.to_set().insert(id)) by {
                        assert(t1.to_set() =~= t0.to_set().insert(id)) by {
                            assert forall|y: NodeId| t1.contains(y) <==> (t0.contains(y) || y == id) by {
                                if t1.contains(y) && y != id {
                                    let jj = choose|jj: int| 0 <= jj < t1.len() && t1[jj] == y;
                                    assert(t0[jj] == y);
                                }
                                if t0.contains(y) {
                                    let jj = choose|jj: int| 0 <= jj < t0.len() && t0[jj] == y;
                                    assert(t1[jj] == y);
                                }
                                assert(t1[i as int] == id);
                            }
                        }
                    }
                    if owned.contains(id) && !t0.contains(id) {
                        // the id is still listed, by the one layer that listed it
                        let l0 = choose|l: LayerId| d0.owns(l, id);
                        assert(dp.owns(l0, id));
                        assert(gone1 == gone0.push(id));
                        let l = self.removed@.last().0;
                        assert(dp.owns(l, id));
                        assert(d0.owns(l, id));
                        assert(dp.node_map().dom().contains(id));
                        lemma_push_to_set(gone0, id);
                        assert(doc.node_map() =~= d0.node_map().remove_keys(gone1.to_set()));
                        assert forall|k: LayerId| #[trigger] doc.layer_map().dom().contains(k) implies
                            doc.layer_map()[k].nodes@ == without_all(d0.layer_map()[k].nodes@, gone1) by {
                            lemma_without_all_push(d0.layer_map()[k].nodes@, gone0, id);
                        }
                        assert forall|ii: int| 0 <= ii < gone1.len() implies {
                            &&& d0.owns(#[trigger] self.removed@[ii].0, gone1[ii])
                            &&& self.removed@[ii].1 == d0.node_map()[gone1[ii]]
                        } by {
                            if ii < gone0.len() {
                                assert(self.removed@[ii] == rem0[ii]);
                            }
                        }
                    } else {
                        assert(gone1 == gone0);
                        if owned.contains(id) {
                            assert(gone0.contains(id));
                        }
                        assert forall|l: LayerId| !#[trigger] dp.owns(l, id) by {
                            if dp.owns(l, id) {
                                assert(d0.owns(l, id));
                                assert(owned.contains(id));
                            }
                        }
                        assert(self.removed@ == rem0);
                        assert(*doc == dp);
                    }
                }
            }
            i += 1;
        }
        proof {
            assert(self.node_ids@.take(self.node_ids@.len() as int) =~= self.node_ids@);
        }
    }

    fn undo(&mut self, doc: &mut Document)
        ensures
            DeleteNodesCmd::undone(*old(self), *old(doc), *final(self), *final(doc)),
    {
        let mut entries: Vec<(LayerId, Node)> = Vec::new();
        std::mem::swap(&mut entries, &mut self.removed);
        restore_entries(doc, entries);
    }

    fn label(&self) -> (s: &str) {
        self.label.as_str()
    }
}

/// Document `d` lists, on layer `l`, some node equal to `node`.
pub open spec fn restored(d: Document, l: LayerId, node: Node) -> bool {
    exists|n: NodeId| d.owns(l, n) && d.node_map()[n] == node
}

/// The ids a deletion by `c` removes from `d`.
pub open spec fn deleted_ids(c: DeleteNodesCmd, d: Document) -> Seq<NodeId> {
    picked(owned_nodes(d), c.targets())
}

/// Deleting nodes from a well-formed document and undoing it brings every
/// deleted node back, equal to what it was, listed on the layer it was on;
/// the nodes that were not deleted are untouched.
pub proof fn law_delete_then_undo(c0: DeleteNodesCmd, d0: Document, c1: DeleteNodesCmd, d1: Document, c2: DeleteNodesCmd, d2: Document)
    requires
        d0.wf(),
        DeleteNodesCmd::applied(c0, d0, c1, d1),
        DeleteNodesCmd::undone(c1, d1, c2, d2),
    ensures
        forall|i: int| 0 <= i < deleted_ids(c0, d0).len() ==> #[trigger] restored(
            d2,
            c1.removed_seq()[i].0,
            d0.node_map()[deleted_ids(c0, d0)[i]],
        ),
        forall|i: int| 0 <= i < deleted_ids(c0, d0).len() ==> d0.owns(
            #[trigger] c1.removed_seq()[i].0,
            deleted_ids(c0, d0)[i],
        ),
        forall|n: NodeId| #[trigger] d0.node_map().dom().contains(n)
            && !deleted_ids(c0, d0).contains(n) ==> d2.node_map().dom().contains(n)
            && d2.node_map()[n] == d0.node_map()[n],
        d2.node_map().len() == d0.node_map().len(),
{
    let gone = picked(owned_nodes(d0), c0.targets());
    let entries = c1.removed_seq();
    assert forall|i: int| 0 <= i < entries.len() implies d1.layer_map().dom().contains(#[trigger] entries[i].0) by {
        assert(d0.owns(entries[i].0, gone[i]));
    }
    lemma_live_entries_all(d1, entries);
    let live = live_entries(d1, entries);
    let ids = choose|ids: Seq<NodeId>| {
        &&& ids.len() == live.len()
        &&& ids.no_duplicates()
        &&& forall|i: int| 0 <= i < ids.len() ==> !d1.node_map().dom().contains(#[trigger] ids[i])
        &&& d2.node_map().dom() == d1.node_map().dom().union(ids.to_set())
        &&& forall|n: NodeId| #[trigger] d1.node_map().dom().contains(n) ==> d2.node_map()[n] == d1.node_map()[n]
        &&& forall|i: int| 0 <= i < ids.len() ==> d2.node_map()[#[trigger] ids[i]] == live[i].1
        &&& forall|k: LayerId| #[trigger] d2.layer_map().dom().contains(k) ==> {
            &&& same_but_nodes(d2.layer_map()[k], d1.layer_map()[k])
            &&& d2.layer_map()[k].nodes@ == d1.layer_map()[k].nodes@ + ids_for(live, ids, k)
        }
    };
    assert forall|i: int| 0 <= i < gone.len() implies #[trigger] restored(d2, c1.removed_seq()[i].0, d0.node_map()[gone[i]]) by {
        let l = entries[i].0;
        assert(d0.owns(entries[i].0, gone[i]));
        lemma_ids_for_contains(entries, ids, i);
        assert(d1.layer_map().dom().contains(l));
        let tail = ids_for(entries, ids, l);
        let jj = choose|jj: int| 0 <= jj < tail.len() && tail[jj] == ids[i];
        let full = d1.layer_map()[l].nodes@ + tail;
        assert(full[d1.layer_map()[l].nodes@.len() + jj] == ids[i]);
        assert(d2.owns(l, ids[i]));
    }
    assert forall|n: NodeId| #[trigger] d0.node_map().dom().contains(n) && !gone.contains(n)
        implies d2.node_map().dom().contains(n) && d2.node_map()[n] == d0.node_map()[n] by {
        assert(d1.node_map().dom().contains(n));
    }
    // The node count: |d0| - |gone| after the delete, then |gone| fresh ids.
    lemma_picked_distinct(owned_nodes(d0), c0.targets());
    let g = gone.to_set();
    gone.unique_seq_to_set();
    ids.unique_seq_to_set();
    let dom0 = d0.node_map().dom();
    assert forall|n: NodeId| g.contains(n) implies dom0.contains(n) by {
        let i = choose|i: int| 0 <= i < gone.len() && gone[i] == n;
        assert(owned_nodes(d0).contains(gone[i]));
        let l = choose|l: LayerId| d0.owns(l, n);
    }
    assert(dom0.intersect(g) =~= g);
    vstd::set_lib::lemma_set_difference_len(dom0, g);
    assert(d1.node_map().dom() =~= dom0.difference(g));
    assert(d1.node_map().dom().disjoint(ids.to_set())) by {
        assert forall|n: NodeId| ids.to_set().contains(n) implies !d1.node_map().dom().contains(n) by {
            let i = choose|i: int| 0 <= i < ids.len() && ids[i] == n;
        }
    }
    vstd::set_lib::lemma_set_disjoint_lens(d1.node_map().dom(), ids.to_set());
}

/// The ids a deletion picks are distinct and each is a node some layer lists.
pub proof fn lemma_picked_distinct(owned: Set<NodeId>, s: Seq<NodeId>)
    ensures
        picked(owned, s).no_duplicates(),
        forall|i: int| 0 <= i < picked(owned, s).len() ==> owned.contains(#[trigger] picked(owned, s)[i]),
    decreases s.len(),
{
    if s.len() > 0 {
        let o2 = if owned.contains(s[0]) { owned.remove(s[0]) } else { owned };
        lemma_picked_distinct(o2, s.drop_first());
        let t = picked(o2, s.drop_first());
        if owned.contains(s[0]) {
            let p = seq![s[0]] + t;
            assert(picked(owned, s) == p);
            lemma_picked_contains(o2, s.drop_first(), s[0]);
            assert forall|a: int, b: int| 0 <= a < p.len() && 0 <= b < p.len() && a != b
                implies p[a] != p[b] by {
                if a == 0 && b > 0 {
                    assert(t.contains(t[b - 1]));
                } else if b == 0 && a > 0 {
                    assert(t.contains(t[a - 1]));
                } else if a > 0 && b > 0 {
                    assert(p[a] == t[a - 1] && p[b] == t[b - 1]);
                }
            }
            assert forall|i: int| 0 <= i < p.len() implies owned.contains(#[trigger] p[i]) by {
                if i > 0 {
                    assert(p[i] == t[i - 1]);
                }
            }
        }
    }
}

/// A second undo of a deletion, with no apply between, adds nothing: the
/// first undo leaves nothing recorded.
pub proof fn law_delete_undo_twice(
    c0: DeleteNodesCmd,
    d0: Document,
    c1: DeleteNodesCmd,
    d1: Document,
    c2: DeleteNodesCmd,
    d2: Document,
    c3: DeleteNodesCmd,
    d3: Document,
)
    requires
        d0.wf(),
        DeleteNodesCmd::applied(c0, d0, c1, d1),
        DeleteNodesCmd::undone(c1, d1, c2, d2),
        DeleteNodesCmd::undone(c2, d2, c3, d3),
    ensures
        d3.node_map() == d2.node_map(),
        same_layers(d3.layer_map(), d2.layer_map()),
        d3.layers@ == d2.layers@,
        d3.same_meta(&d2),
{
    let live = live_entries(d2, c2.removed_seq());
    assert(live =~= Seq::<(LayerId, Node)>::empty());
    let ids = choose|ids: Seq<NodeId>| {
        &&& ids.len() == live.len()
        &&& ids.no_duplicates()
        &&& forall|i: int| 0 <= i < ids.len() ==> !d2.node_map().dom().contains(#[trigger] ids[i])
        &&& d3.node_map().dom() == d2.node_map().dom().union(ids.to_set())
        &&& forall|n: NodeId| #[trigger] d2.node_map().dom().contains(n) ==> d3.node_map()[n] == d2.node_map()[n]
        &&& forall|i: int| 0 <= i < ids.len() ==> d3.node_map()[#[trigger] ids[i]] == live[i].1
        &&& forall|k: LayerId| #[trigger] d3.layer_map().dom().contains(k) ==> {
            &&& same_but_nodes(d3.layer_map()[k], d2.layer_map()[k])
            &&& d3.layer_map()[k].nodes@ == d2.layer_map()[k].nodes@ + ids_for(live, ids, k)
        }
    };
    assert(ids.to_set() =~= Set::<NodeId>::empty());
    assert(d3.node_map() =~= d2.node_map());
    assert forall|k: LayerId| #[trigger] d3.layer_map().dom().contains(k) implies
        d3.layer_map()[k].nodes@ == d2.layer_map()[k].nodes@ by {
        assert(d2.layer_map()[k].nodes@ + ids_for(live, ids, k) =~= d2.layer_map()[k].nodes@);
    }
}

/// Two layer maps that agree on every layer, node lists compared by content.
pub open spec fn same_layers(a: Map<LayerId, crate::doc::Layer>, b: Map<LayerId, crate::doc::Layer>) -> bool {
    &&& a.dom() == b.dom()
    &&& forall|k: LayerId| #[trigger] a.dom().contains(k) ==> {
        &&& same_but_nodes(a[k], b[k])
        &&& a[k].nodes@ == b[k].nodes@
    }
}

/// Removing `x` after the ids `s` removes `x` as well exactly when `x` is
/// still there.
pub proof fn lemma_strip_push(m: Map<NodeId, Node>, s: Seq<NodeId>, x: NodeId)
    ensures
        strip(m, s.push(x)) == strip(m, s) + (if m.remove_keys(s.to_set()).dom().contains(x) {
            seq![x]
        } else {
            seq![]
        }),
    decreases s.len(),
{
    if s.len() == 0 {
        assert(s.push(x) =~= seq![x]);
        assert(seq![x].drop_first() =~= Seq::<NodeId>::empty());
        assert(m.remove_keys(s.to_set()) =~= m);
        assert(strip(m, Seq::<NodeId>::empty()) == Seq::<NodeId>::empty());
        if m.dom().contains(x) {
            assert(strip(m, seq![x]) =~= seq![x] + strip(m.remove(x), Seq::<NodeId>::empty()));
        }
    } else {
        assert(s.push(x).drop_first() =~= s.drop_first().push(x));
        assert(s.push(x)[0] == s[0]);
        let m2 = if m.dom().contains(s[0]) { m.remove(s[0]) } else { m };
        lemma_strip_push(m2, s.drop_first(), x);
        assert(m2.remove_keys(s.drop_first().to_set()) =~= m.remove_keys(s.to_set())) by {
            assert forall|y: NodeId| s.to_set().contains(y) <==> (y == s[0] || s.drop_first().to_set().contains(y)) by {
                if s.contains(y) && y != s[0] {
                    let j = choose|j: int| 0 <= j < s.len() && s[j] == y;
                    assert(s.drop_first()[j - 1] == y);
                }
                if s.drop_first().contains(y) {
                    let j = choose|j: int| 0 <= j < s.drop_first().len() && s.drop_first()[j] == y;
                    assert(s[j + 1] == y);
                }
                assert(s[0] == s[0]);
                if y == s[0] {
                    assert(s.contains(s[0]));
                }
            }
        }
        if m.dom().contains(s[0]) {
            assert(strip(m, s.push(x)) =~= seq![s[0]] + strip(m2, s.drop_first().push(x)));
            assert(strip(m, s) =~= seq![s[0]] + strip(m2, s.drop_first()));
        }
        assert(strip(m, s.push(x)) =~= strip(m, s) + (if m.remove_keys(s.to_set()).dom().contains(x) {
            seq![x]
        } else {
            seq![]
        }));
    }
}

/// Taking out one more id after the ids `j`.
pub proof fn lemma_without_all_push(s: Seq<NodeId>, j: Seq<NodeId>, x: NodeId)
    ensures
        without_all(s, j.push(x)) == seq_without(without_all(s, j), x),
    decreases j.len(),
{
    if j.len() == 0 {
        let one = j.push(x);
        assert(one.drop_first() =~= Seq::<NodeId>::empty());
        assert(one[0] == x);
        assert(without_all(seq_without(s, x), one.drop_first()) == seq_without(s, x));
        assert(without_all(s, j) == s);
    } else {
        assert(j.push(x).drop_first() =~= j.drop_first().push(x));
        assert(j.push(x)[0] == j[0]);
        lemma_without_all_push(seq_without(s, j[0]), j.drop_first(), x);
    }
}

/// Taking out ids that do not occur changes nothing.
pub proof fn lemma_without_all_absent(s: Seq<NodeId>, j: Seq<NodeId>)
    requires
        forall|i: int| 0 <= i < j.len() ==> !s.contains(#[trigger] j[i]),
    ensures
        without_all(s, j) == s,
    decreases j.len(),
{
    if j.len() > 0 {
        lemma_without_absent(s, j[0]);
        assert forall|i: int| 0 <= i < j.drop_first().len() implies !s.contains(#[trigger] j.drop_first()[i]) by {
            assert(j.drop_first()[i] == j[i + 1]);
        }
        lemma_without_all_absent(s, j.drop_first());
    }
}

/// Taking out, in order, distinct ids appended to a list that has none of
/// them gives back the list.
pub proof fn lemma_without_all_appended(a: Seq<NodeId>, j: Seq<NodeId>)
    requires
        j.no_duplicates(),
        forall|i: int| 0 <= i < j.len() ==> !a.contains(#[trigger] j[i]),
    ensures
        without_all(a + j, j) == a,
    decreases j.len(),
{
    if j.len() > 0 {
        let x = j[0];
        let rest = j.drop_first();
        assert(a + j =~= (a + seq![x]) + rest);
        // removing x from a + [x] + rest gives a + rest
        assert(seq_without(a + j, x) == a + rest) by {
            lemma_without_concat(a + seq![x], rest, x);
            lemma_without_absent(a, x);
            assert((a + seq![x]).drop_last() =~= a);
            assert((a + seq![x]).last() == x);
            assert(!rest.contains(x)) by {
                if rest.contains(x) {
                    let i = choose|i: int| 0 <= i < rest.len() && rest[i] == x;
                    assert(j[i + 1] == j[0]);
                }
            }
            lemma_without_absent(rest, x);
        }
        assert(rest.no_duplicates()) by {
            assert forall|p: int, q: int| 0 <= p < rest.len() && 0 <= q < rest.len() && p != q
                implies rest[p] != rest[q] by {
                assert(rest[p] == j[p + 1] && rest[q] == j[q + 1]);
            }
        }
        assert forall|i: int| 0 <= i < rest.len() implies !a.contains(#[trigger] rest[i]) by {
            assert(rest[i] == j[i + 1]);
        }
        lemma_without_all_appended(a, rest);
    }
}

/// `seq_without` distributes over concatenation.
pub proof fn lemma_without_concat(a: Seq<NodeId>, b: Seq<NodeId>, x: NodeId)
    ensures
        seq_without(a + b, x) == seq_without(a, x) + seq_without(b, x),
    decreases b.len(),
{
    if b.len() == 0 {
        assert(a + b =~= a);
        assert(seq_without(b, x) =~= Seq::<NodeId>::empty());
        assert(seq_without(a, x) + seq_without(b, x) =~= seq_without(a, x));
    } else {
        assert((a + b).drop_last() =~= a + b.drop_last());
        assert((a + b).last() == b.last());
        lemma_without_concat(a, b.drop_last(), x);
        if b.last() != x {
            assert(seq_without(a, x) + seq_without(b.drop_last(), x).push(b.last())
                =~= (seq_without(a, x) + seq_without(b.drop_last(), x)).push(b.last()));
        }
    }
}


/// Pushing a fresh add-node command for an existing layer onto the history
/// and then undoing gives back the document and the undo history.
pub proof fn law_push_add_then_undo(
    s0: CommandStack<AddNodeCmd>,
    d0: Document,
    cmd: AddNodeCmd,
    s1: CommandStack<AddNodeCmd>,
    d1: Document,
    done: bool,
    s2: CommandStack<AddNodeCmd>,
    d2: Document,
)
    requires
        d0.wf(),
        d0.layer_map().dom().contains(cmd.target_layer()),
        cmd.pending_seq().len() > 0,
        cmd.inserted_seq().len() == 0,
        CommandStack::pushed(s0, cmd.spec_label(), s1),
        AddNodeCmd::applied(cmd, d0, s1.undo_seq().last(), d1),
        CommandStack::undone(s1, done, s2),
        done ==> AddNodeCmd::undone(s1.undo_seq().last(), d1, s2.redo_seq().last(), d2),
    ensures
        done,
        d2.node_map() == d0.node_map(),
        same_layers(d2.layer_map(), d0.layer_map()),
        d2.layers@ == d0.layers@,
        d2.same_meta(&d0),
        s2.undo_seq() == s0.undo_seq(),
{
    law_add_then_undo(cmd, d0, s1.undo_seq().last(), d1, s2.redo_seq().last(), d2);
}

/// Pushing a delete command onto the history of a well-formed document and
/// then undoing brings every deleted node back, equal to what it was, on
/// the layer it was on, and gives back the undo history.
pub proof fn law_push_delete_then_undo(
    s0: CommandStack<DeleteNodesCmd>,
    d0: Document,
    cmd: DeleteNodesCmd,
    s1: CommandStack<DeleteNodesCmd>,
    d1: Document,
    done: bool,
    s2: CommandStack<DeleteNodesCmd>,
    d2: Document,
)
    requires
        d0.wf(),
        CommandStack::pushed(s0, cmd.spec_label(), s1),
        DeleteNodesCmd::applied(cmd, d0, s1.undo_seq().last(), d1),
        CommandStack::undone(s1, done, s2),
        done ==> DeleteNodesCmd::undone(s1.undo_seq().last(), d1, s2.redo_seq().last(), d2),
    ensures
        done,
        forall|i: int| 0 <= i < deleted_ids(cmd, d0).len() ==> #[trigger] restored(
            d2,
            s1.undo_seq().last().removed_seq()[i].0,
            d0.node_map()[deleted_ids(cmd, d0)[i]],
        ),
        forall|n: NodeId| #[trigger] d0.node_map().dom().contains(n)
            && !deleted_ids(cmd, d0).contains(n) ==> d2.node_map().dom().contains(n)
            && d2.node_map()[n] == d0.node_map()[n],
        d2.node_map().len() == d0.node_map().len(),
        s2.undo_seq() == s0.undo_seq(),
{
    law_delete_then_undo(cmd, d0, s1.undo_seq().last(), d1, s2.redo_seq().last(), d2);
}


/// The nodes that layer `l` of `d` lists, by value, in paint order.
pub open spec fn listed_values(d: Document, l: LayerId) -> Seq<Node> {
    d.layer_map()[l].nodes@.map_values(|n: NodeId| d.node_map()[n])
}

/// Adding nodes to an existing layer, undoing and redoing lists on the
/// layer, by value, what the first apply listed: the nodes it listed before
/// followed by the added nodes in their order; the first id recorded is
/// that of the first added node.
pub proof fn law_add_undo_redo(
    c0: AddNodeCmd,
    d0: Document,
    c1: AddNodeCmd,
    d1: Document,
    c2: AddNodeCmd,
    d2: Document,
    c3: AddNodeCmd,
    d3: Document,
)
    requires
        d0.wf(),
        d0.layer_map().dom().contains(c0.target_layer()),
        c0.pending_seq().len() > 0,
        c0.inserted_seq().len() == 0,
        AddNodeCmd::applied(c0, d0, c1, d1),
        AddNodeCmd::undone(c1, d1, c2, d2),
        AddNodeCmd::applied(c2, d2, c3, d3),
    ensures
        listed_values(d3, c0.target_layer()) == listed_values(d0, c0.target_layer()) + c0.pending_seq(),
        listed_values(d3, c0.target_layer()) == listed_values(d1, c0.target_layer()),
        c3.inserted_seq().len() == c0.pending_seq().len(),
        d3.node_map()[c3.inserted_seq()[0]] == c0.pending_seq()[0],
        d3.layers@ == d0.layers@,
{
    let l = c0.layer_id;
    law_add_then_undo(c0, d0, c1, d1, c2, d2);
    let ids1 = c1.inserted_ids@;
    assert(ids1.skip(0) =~= ids1);
    let ids3 = c3.inserted_ids@;
    assert(ids3.skip(0) =~= ids3);
    let a = d0.layer_map()[l].nodes@;
    assert(d2.layer_map()[l].nodes@ == a);
    assert(d3.layer_map()[l].nodes@ == a + ids3);
    assert forall|i: int| 0 <= i < a.len() implies d0.node_map().dom().contains(#[trigger] a[i]) by {
        assert(d0.owns(l, a[i]));
    }
    assert(listed_values(d3, l) =~= listed_values(d0, l) + c0.pending@) by {
        assert forall|i: int| 0 <= i < a.len() implies d3.node_map()[a[i]] == d0.node_map()[a[i]] by {
            assert(d0.node_map().dom().contains(a[i]));
            assert(d2.node_map().dom().contains(a[i]));
        }
        assert forall|i: int| 0 <= i < ids3.len() implies d3.node_map()[ids3[i]] == c0.pending@[i] by {
            assert(d3.node_map()[ids3[i]] == c2.pending@[i]);
        }
    }
    assert(listed_values(d1, l) =~= listed_values(d0, l) + c0.pending@) by {
        assert(d1.layer_map()[l].nodes@ == a + ids1);
        assert forall|i: int| 0 <= i < a.len() implies d1.node_map()[a[i]] == d0.node_map()[a[i]] by {
            assert(d0.node_map().dom().contains(a[i]));
        }
        assert forall|i: int| 0 <= i < ids1.len() implies d1.node_map()[ids1[i]] == c0.pending@[i] by {}
    }
    assert(d3.node_map()[ids3[0]] == c2.pending@[0]);
}

/// Pushing an add of nodes to an existing layer, undoing and redoing through
/// the history: both steps happen, the layer lists by value what the push
/// listed, and the add is back on top of the undo history with nothing left
/// to redo.
pub proof fn law_push_add_undo_redo(
    s0: CommandStack<AddNodeCmd>,
    d0: Document,
    cmd: AddNodeCmd,
    s1: CommandStack<AddNodeCmd>,
    d1: Document,
    undone: bool,
    s2: CommandStack<AddNodeCmd>,
    d2: Document,
    redone: bool,
    s3: CommandStack<AddNodeCmd>,
    d3: Document,
)
    requires
        d0.wf(),
        d0.layer_map().dom().contains(cmd.target_layer()),
        cmd.pending_seq().len() > 0,
        cmd.inserted_seq().len() == 0,
        CommandStack::pushed(s0, cmd.spec_label(), s1),
        AddNodeCmd::applied(cmd, d0, s1.undo_seq().last(), d1),
        CommandStack::undone(s1, undone, s2),
        undone ==> AddNodeCmd::undone(s1.undo_seq().last(), d1, s2.redo_seq().last(), d2),
        CommandStack::redone(s2, redone, s3),
        redone ==> AddNodeCmd::applied(s2.redo_seq().last(), d2, s3.undo_seq().last(), d3),
    ensures
        undone,
        redone,
        listed_values(d3, cmd.target_layer()) == listed_values(d1, cmd.target_layer()),
        d3.layers@ == d1.layers@,
        s3.undo_seq().len() == s1.undo_seq().len(),
        s3.undo_seq().last().spec_label() == cmd.spec_label(),
        s3.redo_seq().len() == 0,
{
    law_add_undo_redo(cmd, d0, s1.undo_seq().last(), d1, s2.redo_seq().last(), d2, s3.undo_seq().last(), d3);
    law_add_then_undo(cmd, d0, s1.undo_seq().last(), d1, s2.redo_seq().last(), d2);
}

} // verus!
