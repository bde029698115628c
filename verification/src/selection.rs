//! The set of selected nodes.

use std::collections::HashSet;
use vstd::prelude::*;
use crate::arena::{key_valid, NodeId};
use crate::doc::Document;

verus! {

/// The ids named by a set of key values.
pub open spec fn ids_of(keys: Set<u64>) -> Set<NodeId> {
    keys.map(|k: u64| NodeId::of_key(k))
}

/// An id is among `ids_of(keys)` exactly when its key value is in `keys`;
/// and as many ids as key values.
proof fn lemma_ids_of(keys: Set<u64>)
    ensures
        forall|n: NodeId| #[trigger] ids_of(keys).contains(n) <==> keys.contains(n.spec_key()),
        keys.finite() ==> ids_of(keys).finite() && ids_of(keys).len() == keys.len(),
{
    NodeId::lemma_keys();
    let f = |k: u64| NodeId::of_key(k);
    assert forall|n: NodeId| #[trigger] ids_of(keys).contains(n) <==> keys.contains(n.spec_key()) by {
        if keys.contains(n.spec_key()) {
            assert(f(n.spec_key()) == n);
        }
        if ids_of(keys).contains(n) {
            let k = choose|k: u64| keys.contains(k) && n == f(k);
            assert(n.spec_key() == k);
        }
    }
    if keys.finite() {
        assert(vstd::relations::injective_on(f, keys)) by {
            assert forall|a: u64, b: u64| keys.contains(a) && keys.contains(b) && #[trigger] f(a) == #[trigger] f(b)
                implies a == b by {
                assert(f(a).spec_key() == a);
                assert(f(b).spec_key() == b);
            }
        }
        vstd::set_lib::lemma_map_size(keys, ids_of(keys), f);
    }
}

/// Ids made, in order, from distinct key values `s` cover `ids_of` of them.
proof fn lemma_covers(v: Seq<NodeId>, s: Seq<u64>, keys: Set<u64>)
    requires
        s.to_set() == keys,
        v.len() == s.len(),
        forall|j: int| 0 <= j < s.len() ==> #[trigger] v[j] == NodeId::of_key(s[j]),
    ensures
        v.to_set() == ids_of(keys),
{
    lemma_ids_of(keys);
    NodeId::lemma_keys();
    assert forall|n: NodeId| v.to_set().contains(n) <==> ids_of(keys).contains(n) by {
        if v.contains(n) {
            let j = choose|j: int| 0 <= j < v.len() && v[j] == n;
            assert(s.to_set().contains(s[j]));
        }
        if ids_of(keys).contains(n) {
            assert(s.to_set().contains(n.spec_key()));
            let j = choose|j: int| 0 <= j < s.len() && s[j] == n.spec_key();
            assert(v[j] == n);
        }
    }
    assert(v.to_set() =~= ids_of(keys));
}

/// A set of node ids, held as their slot-map key values in a `HashSet`.
#[derive(Debug)]
pub struct Selection {
    keys: HashSet<u64>,
}

impl View for Selection {
    type V = Set<NodeId>;

    closed spec fn view(&self) -> Set<NodeId> {
        ids_of(self.keys@)
    }
}

impl Selection {
    /// Finitely many keys, each one an id could have.
    #[verifier::type_invariant]
    closed spec fn wf(&self) -> bool {
        &&& self.keys@.finite()
        &&& forall|k: u64| #[trigger] self.keys@.contains(k) ==> key_valid(k)
    }

    pub fn new() -> (s: Selection)
        ensures
            s@ == Set::<NodeId>::empty(),
    {
        let s = Selection { keys: HashSet::new() };
        proof {
            lemma_ids_of(s.keys@);
            assert(s@ =~= Set::<NodeId>::empty());
        }
        s
    }

    pub fn contains(&self, id: NodeId) -> (b: bool)
        ensures
            b == self@.contains(id),
    {
        proof { lemma_ids_of(self.keys@); }
        let k = id.key_value();
        self.keys.contains(&k)
    }

    /// Add `id`; say whether it was new.
    pub fn insert(&mut self, id: NodeId) -> (added: bool)
        ensures
            final(self)@ == old(self)@.insert(id),
            added == !old(self)@.contains(id),
    {
        proof {
            use_type_invariant(&*self);
            lemma_ids_of(self.keys@);
        }
        let k = id.key_value();
        let mut keys: HashSet<u64> = HashSet::new();
        std::mem::swap(&mut keys, &mut self.keys);
        let added = keys.insert(k);
        self.keys = keys;
        proof {
            lemma_ids_of(self.keys@);
            assert(self@ =~= old(self)@.insert(id)) by {
                NodeId::lemma_keys();
            }
        }
        added
    }

    /// Take `id` out; say whether it was there.
    pub fn remove(&mut self, id: NodeId) -> (removed: bool)
        ensures
            final(self)@ == old(self)@.remove(id),
            removed == old(self)@.contains(id),
    {
        proof {
            use_type_invariant(&*self);
            lemma_ids_of(self.keys@);
        }
        let k = id.key_value();
        let mut keys: HashSet<u64> = HashSet::new();
        std::mem::swap(&mut keys, &mut self.keys);
        let removed = keys.remove(&k);
        self.keys = keys;
        proof {
            lemma_ids_of(self.keys@);
            assert(self@ =~= old(self)@.remove(id)) by {
                NodeId::lemma_keys();
            }
        }
        removed
    }

    pub fn clear(&mut self)
        ensures
            final(self)@ == Set::<NodeId>::empty(),
    {
        self.keys = HashSet::new();
        proof {
            lemma_ids_of(self.keys@);
            assert(self@ =~= Set::<NodeId>::empty());
        }
    }

    pub fn len(&self) -> (n: usize)
        ensures
            n == self@.len(),
    {
        proof {
            use_type_invariant(self);
            lemma_ids_of(self.keys@);
        }
        self.keys.len()
    }

    pub fn is_empty(&self) -> (b: bool)
        ensures
            b == (self@.len() == 0),
    {
        proof {
            use_type_invariant(self);
            lemma_ids_of(self.keys@);
        }
        self.keys.len() == 0
    }

    /// The selected ids, each once, in the set's iteration order.
    pub fn to_vec(&self) -> (v: Vec<NodeId>)
        ensures
            v@.no_duplicates(),
            v@.to_set() == self@,
    {
        proof {
            use_type_invariant(self);
            lemma_ids_of(self.keys@);
            NodeId::lemma_keys();
        }
        let mut v: Vec<NodeId> = Vec::new();
        let ghost mut seen: Seq<u64> = seq![];
        for k in it: self.keys.iter()
            invariant
                forall|x: u64| #[trigger] self.keys@.contains(x) ==> key_valid(x),
                it.seq().unref().to_set() == self.keys@,
                it.seq().unref().no_duplicates(),
                seen == it.seq().unref().take(it.index() as int),
                v@.len() == seen.len(),
                forall|j: int| 0 <= j < seen.len() ==> #[trigger] v@[j] == NodeId::of_key(seen[j]),
                it.index() == it.seq().len() ==> seen == it.seq().unref(),
        {
            proof {
                assert(it.seq().unref()[it.index() as int] == *k);
                assert(it.seq().unref().to_set().contains(*k));
            }
            v.push(NodeId::from_key(*k));
            proof {
                assert(it.seq().unref().take(it.index() + 1) =~= seen.push(*k));
                seen = seen.push(*k);
                assert(it.seq().unref().take(it.seq().len() as int) =~= it.seq().unref());
            }
        }
        proof {
            assert(seen.to_set() == self.keys@);
            lemma_covers(v@, seen, self.keys@);
            assert forall|a: int, b: int| 0 <= a < v@.len() && 0 <= b < v@.len() && a != b
                implies v@[a] != v@[b] by {
                assert(v@[a].spec_key() == seen[a]);
                assert(v@[b].spec_key() == seen[b]);
            }
        }
        v
    }
    /// Keep only the ids that `doc` still holds.
    pub fn retain_present(&mut self, doc: &Document)
        ensures
            final(self)@ == old(self)@.filter(|n: NodeId| doc.node_map().dom().contains(n)),
    {
        let ids = self.to_vec();
        let mut kept = Selection::new();
        let mut i: usize = 0;
        while i < ids.len()
            invariant
                i <= ids@.len(),
                kept@ == ids@.take(i as int).to_set().filter(|n: NodeId| doc.node_map().dom().contains(n)),
            decreases ids@.len() - i,
        {
            let id = ids[i];
            proof {
                assert(ids@.take(i + 1) =~= ids@.take(i as int).push(id));
                crate::seqs::lemma_push_to_set(ids@.take(i as int), id);
            }
            let ghost before = kept@;
            let present = match doc.node(id) {
                Some(_) => true,
                None => false,
            };
            if present {
                kept.insert(id);
            }
            proof {
                let t1 = ids@.take(i + 1).to_set();
                let t0 = ids@.take(i as int).to_set();
                assert(t1 == t0.insert(id));
                assert(present == doc.node_map().dom().contains(id));
                assert forall|y: NodeId| #[trigger] kept@.contains(y) == (t1.contains(y) && doc.node_map().dom().contains(y)) by {
                    assert(before.contains(y) == (t0.contains(y) && doc.node_map().dom().contains(y)));
                }
                assert(kept@ =~= t1.filter(|n: NodeId| doc.node_map().dom().contains(n)));
            }
            i += 1;
        }
        assert(ids@.take(ids@.len() as int) =~= ids@);
        *self = kept;
    }
}

} // verus!
