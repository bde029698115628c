//! The two slot maps that own a document's layers and nodes, and the keys
//! that name their entries.
//!
//! A key is carried as the 64-bit value that `slotmap` gives out for it
//! (`KeyData::as_ffi`): the slot's version in the upper half, the slot index
//! in the lower half. A slot holding a value always has an odd version.

use vstd::prelude::*;
use slotmap::{DefaultKey, Key, KeyData, SlotMap};
use crate::doc::{Layer, Node};

verus! {

/// A key value as `slotmap` produces it for an occupied slot: odd version.
pub open spec fn key_valid(k: u64) -> bool {
    (k / 0x1_0000_0000) % 2 == 1
}

/// Names a layer of a document.
#[derive(Clone, Copy, PartialEq, Eq, Structural, Debug, Hash)]
pub struct LayerId {
    key: u64,
}

/// Names a node of a document.
#[derive(Clone, Copy, PartialEq, Eq, Structural, Debug, Hash)]
pub struct NodeId {
    key: u64,
}

impl LayerId {
    #[verifier::type_invariant]
    closed spec fn inv(self) -> bool {
        key_valid(self.key)
    }

    /// The slot-map key value this id stands for.
    pub closed spec fn spec_key(self) -> u64 {
        self.key
    }

    /// The slot-map key value this id stands for (`KeyData::as_ffi`).
    pub fn key_value(self) -> (k: u64)
        ensures
            k == self.spec_key(),
    {
        self.key
    }
}

impl NodeId {
    #[verifier::type_invariant]
    closed spec fn inv(self) -> bool {
        key_valid(self.key)
    }

    pub closed spec fn spec_key(self) -> u64 {
        self.key
    }

    /// The slot-map key value this id stands for (`KeyData::as_ffi`).
    pub fn key_value(self) -> (k: u64)
        ensures
            k == self.spec_key(),
            key_valid(k),
    {
        proof { use_type_invariant(self); }
        self.key
    }

    /// The id a key value stands for.
    pub closed spec fn of_key(k: u64) -> NodeId {
        NodeId { key: k }
    }

    /// The id for a key value `slotmap` could have given out.
    pub fn from_key(k: u64) -> (id: NodeId)
        requires
            key_valid(k),
        ensures
            id == NodeId::of_key(k),
    {
        NodeId { key: k }
    }

    /// An id and its key value name each other.
    pub proof fn lemma_keys()
        ensures
            forall|n: NodeId| #[trigger] NodeId::of_key(n.spec_key()) == n,
            forall|k: u64| #[trigger] NodeId::of_key(k).spec_key() == k,
    {
    }
}

/// Slot map that owns the layers of a document.
#[verifier::external_body]
pub struct LayerArena {
    slots: SlotMap<DefaultKey, Layer>,
}

/// Slot map that owns the nodes of a document.
#[verifier::external_body]
pub struct NodeArena {
    slots: SlotMap<DefaultKey, Node>,
}

/// The empty layer map.
pub open spec fn no_layers() -> Map<LayerId, Layer> {
    Map::empty()
}

/// The empty node map.
pub open spec fn no_nodes() -> Map<NodeId, Node> {
    Map::empty()
}

/// The layers a layer slot map holds, by key.
pub uninterp spec fn layer_slots(a: LayerArena) -> Map<LayerId, Layer>;

/// The nodes a node slot map holds, by key.
pub uninterp spec fn node_slots(a: NodeArena) -> Map<NodeId, Node>;

/// `SlotMap::with_key`: an empty slot map.
#[verifier::external_body]
pub(crate) fn layer_arena_new() -> (r: LayerArena)
    ensures
        layer_slots(r) == no_layers(),
{
    LayerArena { slots: SlotMap::with_key() }
}

/// `SlotMap::len`: the number of values held.
#[verifier::external_body]
pub(crate) fn layer_arena_len(a: &LayerArena) -> (r: usize)
    ensures
        r == layer_slots(*a).len(),
{
    a.slots.len()
}

/// `SlotMap::insert`: stores `v` under a key not in use and returns it. It
/// panics only when the map already holds `u32::MAX - 1` values.
#[verifier::external_body]
pub(crate) fn layer_arena_insert(a: &mut LayerArena, v: Layer) -> (k: LayerId)
    requires
        layer_slots(*old(a)).dom().finite(),
        layer_slots(*old(a)).len() + 1 < 0xFFFF_FFFF,
    ensures
        !layer_slots(*old(a)).dom().contains(k),
        layer_slots(*final(a)) == layer_slots(*old(a)).insert(k, v),
{
    LayerId { key: a.slots.insert(v).data().as_ffi() }
}

/// `SlotMap::remove`: takes the value held under `k`, if any.
#[verifier::external_body]
pub(crate) fn layer_arena_remove(a: &mut LayerArena, k: LayerId) -> (r: Option<Layer>)
    ensures
        r == (if layer_slots(*old(a)).dom().contains(k) {
            Some(layer_slots(*old(a))[k])
        } else {
            None
        }),
        layer_slots(*final(a)) == layer_slots(*old(a)).remove(k),
{
    a.slots.remove(KeyData::from_ffi(k.key).into())
}

/// `SlotMap::get`: the value held under `k`, if any.
#[verifier::external_body]
pub(crate) fn layer_arena_get(a: &LayerArena, k: LayerId) -> (r: Option<&Layer>)
    ensures
        r == (if layer_slots(*a).dom().contains(k) {
            Some(&layer_slots(*a)[k])
        } else {
            None
        }),
{
    a.slots.get(KeyData::from_ffi(k.key).into())
}

/// `IndexMut` of `SlotMap` (it panics on a key not held): the value under `k`.
#[verifier::external_body]
pub(crate) fn layer_arena_get_mut(a: &mut LayerArena, k: LayerId) -> (r: &mut Layer)
    requires
        layer_slots(*old(a)).dom().contains(k),
    ensures
        *r == layer_slots(*old(a))[k],
        layer_slots(*final(a)) == layer_slots(*old(a)).insert(k, *final(r)),
{
    &mut a.slots[KeyData::from_ffi(k.key).into()]
}

/// `SlotMap::keys`: every key held, each once, in slot order.
#[verifier::external_body]
pub(crate) fn layer_arena_keys(a: &LayerArena) -> (r: Vec<LayerId>)
    ensures
        r@.no_duplicates() && r@.to_set() == layer_slots(*a).dom(),
{
    a.slots.keys().map(|k| LayerId { key: k.data().as_ffi() }).collect()
}

/// `SlotMap::with_key`: an empty slot map.
#[verifier::external_body]
pub(crate) fn node_arena_new() -> (r: NodeArena)
    ensures
        node_slots(r) == no_nodes(),
{
    NodeArena { slots: SlotMap::with_key() }
}

/// `SlotMap::len`: the number of values held.
#[verifier::external_body]
pub(crate) fn node_arena_len(a: &NodeArena) -> (r: usize)
    ensures
        r == node_slots(*a).len(),
{
    a.slots.len()
}

/// `SlotMap::insert`: stores `v` under a key not in use and returns it. It
/// panics only when the map already holds `u32::MAX - 1` values.
#[verifier::external_body]
pub(crate) fn node_arena_insert(a: &mut NodeArena, v: Node) -> (k: NodeId)
    requires
        node_slots(*old(a)).dom().finite(),
        node_slots(*old(a)).len() + 1 < 0xFFFF_FFFF,
    ensures
        !node_slots(*old(a)).dom().contains(k),
        node_slots(*final(a)) == node_slots(*old(a)).insert(k, v),
{
    NodeId { key: a.slots.insert(v).data().as_ffi() }
}

/// `SlotMap::remove`: takes the value held under `k`, if any.
#[verifier::external_body]
pub(crate) fn node_arena_remove(a: &mut NodeArena, k: NodeId) -> (r: Option<Node>)
    ensures
        r == (if node_slots(*old(a)).dom().contains(k) {
            Some(node_slots(*old(a))[k])
        } else {
            None
        }),
        node_slots(*final(a)) == node_slots(*old(a)).remove(k),
{
    a.slots.remove(KeyData::from_ffi(k.key).into())
}

/// `SlotMap::get`: the value held under `k`, if any.
#[verifier::external_body]
pub(crate) fn node_arena_get(a: &NodeArena, k: NodeId) -> (r: Option<&Node>)
    ensures
        r == (if node_slots(*a).dom().contains(k) {
            Some(&node_slots(*a)[k])
        } else {
            None
        }),
{
    a.slots.get(KeyData::from_ffi(k.key).into())
}

/// `IndexMut` of `SlotMap` (it panics on a key not held): the value under `k`.
#[verifier::external_body]
pub(crate) fn node_arena_get_mut(a: &mut NodeArena, k: NodeId) -> (r: &mut Node)
    requires
        node_slots(*old(a)).dom().contains(k),
    ensures
        *r == node_slots(*old(a))[k],
        node_slots(*final(a)) == node_slots(*old(a)).insert(k, *final(r)),
{
    &mut a.slots[KeyData::from_ffi(k.key).into()]
}

/// `SlotMap::keys`: every key held, each once, in slot order.
#[verifier::external_body]
pub(crate) fn node_arena_keys(a: &NodeArena) -> (r: Vec<NodeId>)
    ensures
        r@.no_duplicates() && r@.to_set() == node_slots(*a).dom(),
{
    a.slots.keys().map(|k| NodeId { key: k.data().as_ffi() }).collect()
}

} // verus!
