//! The document: layers in paint order, the nodes they own, and artboards.

use vstd::prelude::*;
use crate::arena::{
    layer_arena_get, layer_arena_get_mut, layer_arena_insert, layer_arena_keys, layer_arena_len,
    layer_arena_new, layer_arena_remove, layer_slots, node_arena_get, node_arena_get_mut,
    node_arena_insert, node_arena_keys, node_arena_len, node_arena_new, node_arena_remove,
    node_slots, LayerArena, LayerId, NodeArena, NodeId,
};
use crate::image::ImageNode;
use crate::path::PathNode;
use crate::seqs::{
    lemma_without_absent, lemma_without_contains, lemma_without_no_duplicates,
    lemma_without_take_step, seq_without,
};
use crate::style::{BlendMode, Vec2, F32_HALF, F32_ONE};
use crate::text::TextNode;

verus! {

#[derive(Clone, Debug, PartialEq, Eq, Structural)]
pub enum LayerKind {
    Normal,
    /// Locked-by-default tracing layer, multiplied at reduced opacity so the
    /// art underneath shows through.
    Reference { dimmed: bool },
}

/// What a missing `dimmed` flag of a stored reference layer reads as.
pub fn default_true() -> (b: bool)
    ensures
        b,
{
    true
}

impl Default for LayerKind {
    fn default() -> (k: LayerKind)
        ensures
            k == LayerKind::Normal,
    {
        LayerKind::Normal
    }
}

impl LayerKind {
    pub fn is_reference(&self) -> (b: bool)
        ensures
            b == (self is Reference),
    {
        match self {
            LayerKind::Reference { .. } => true,
            LayerKind::Normal => false,
        }
    }
}

/// A layer; `opacity` is an `f32` in `0.0..=1.0`, held as bits.
#[derive(Clone, Debug)]
pub struct Layer {
    pub name: String,
    pub visible: bool,
    pub locked: bool,
    pub opacity: u32,
    pub blend: BlendMode,
    pub kind: LayerKind,
    /// Nodes in paint order (last is topmost).
    pub nodes: Vec<NodeId>,
}

impl Layer {
    /// A visible, unlocked, fully opaque, normal layer with no nodes.
    pub fn new(name: String) -> (l: Layer)
        ensures
            l.name@ == name@,
            l.visible,
            !l.locked,
            l.opacity == F32_ONE,
            l.blend == BlendMode::Normal,
            l.kind == LayerKind::Normal,
            l.nodes@.len() == 0,
    {
        Layer {
            name,
            visible: true,
            locked: false,
            opacity: F32_ONE,
            blend: BlendMode::Normal,
            kind: LayerKind::Normal,
            nodes: Vec::new(),
        }
    }

    /// A visible, locked, half-opaque, multiplied, dimmed reference layer.
    pub fn reference(name: String) -> (l: Layer)
        ensures
            l.name@ == name@,
            l.visible,
            l.locked,
            l.opacity == F32_HALF,
            l.blend == BlendMode::Multiply,
            l.kind == (LayerKind::Reference { dimmed: true }),
            l.nodes@.len() == 0,
    {
        Layer {
            name,
            visible: true,
            locked: true,
            opacity: F32_HALF,
            blend: BlendMode::Multiply,
            kind: LayerKind::Reference { dimmed: true },
            nodes: Vec::new(),
        }
    }
}

/// Two layers that agree in everything but their node lists.
pub open spec fn same_but_nodes(a: Layer, b: Layer) -> bool {
    &&& a.name@ == b.name@
    &&& a.visible == b.visible
    &&& a.locked == b.locked
    &&& a.opacity == b.opacity
    &&& a.blend == b.blend
    &&& a.kind == b.kind
}

#[derive(Clone, Debug)]
pub enum NodeKind {
    Path(PathNode),
    Image(ImageNode),
    Text(TextNode),
}

#[derive(Clone, Debug)]
pub struct Node {
    pub name: String,
    pub kind: NodeKind,
}

impl Node {
    pub fn path(name: String, path: PathNode) -> (n: Node)
        ensures
            n.name@ == name@,
            n.kind == NodeKind::Path(path),
    {
        Node { name, kind: NodeKind::Path(path) }
    }

    pub fn image(name: String, image: ImageNode) -> (n: Node)
        ensures
            n.name@ == name@,
            n.kind == NodeKind::Image(image),
    {
        Node { name, kind: NodeKind::Image(image) }
    }

    pub fn text(name: String, text: TextNode) -> (n: Node)
        ensures
            n.name@ == name@,
            n.kind == NodeKind::Text(text),
    {
        Node { name, kind: NodeKind::Text(text) }
    }
}

/// A named page rectangle in world space.
#[derive(Clone, Debug)]
pub struct Artboard {
    pub name: String,
    pub min: Vec2,
    pub max: Vec2,
}

/// The newest file-format version this library reads and writes.
pub const CURRENT_VERSION: u32 = 1;

/// What a missing `version` of a stored document reads as.
pub fn current_version() -> (v: u32)
    ensures
        v == CURRENT_VERSION,
{
    CURRENT_VERSION
}

/// The whole document. `layers[0]` is the topmost layer.
pub struct Document {
    pub version: u32,
    pub title: String,
    pub layers: Vec<LayerId>,
    pub layer_arena: LayerArena,
    pub node_arena: NodeArena,
    pub artboards: Vec<Artboard>,
}

impl Document {
    /// The layers the document holds, by id.
    pub open spec fn layer_map(&self) -> Map<LayerId, Layer> {
        layer_slots(self.layer_arena)
    }

    /// The nodes the document holds, by id.
    pub open spec fn node_map(&self) -> Map<NodeId, Node> {
        node_slots(self.node_arena)
    }

    /// Layer `l` exists and lists node `n`.
    pub open spec fn owns(&self, l: LayerId, n: NodeId) -> bool {
        self.layer_map().dom().contains(l) && self.layer_map()[l].nodes@.contains(n)
    }

    /// Every node of the document is listed by some layer.
    pub open spec fn all_listed(&self) -> bool {
        forall|n: NodeId| #[trigger] self.node_map().dom().contains(n) ==> exists|l: LayerId| self.owns(l, n)
    }

    /// Room for `k` more layers.
    pub open spec fn layer_room(&self, k: nat) -> bool {
        self.layer_map().len() + k < 0xFFFF_FFFF
    }

    /// Room for `k` more nodes.
    pub open spec fn node_room(&self, k: nat) -> bool {
        self.node_map().len() + k < 0xFFFF_FFFF
    }

    /// Well-formed: the layer order lists each layer exactly once, every
    /// listed node exists, and no node is listed twice, within a layer or
    /// across layers.
    pub open spec fn wf(&self) -> bool {
        &&& self.layer_map().dom().finite()
        &&& self.node_map().dom().finite()
        &&& self.layers@.no_duplicates()
        &&& forall|l: LayerId| #[trigger] self.layers@.contains(l) <==> self.layer_map().dom().contains(l)
        &&& forall|l: LayerId, n: NodeId| #[trigger] self.owns(l, n) ==> self.node_map().dom().contains(n)
        &&& forall|l: LayerId| #[trigger] self.layer_map().dom().contains(l)
            ==> self.layer_map()[l].nodes@.no_duplicates()
        &&& forall|l1: LayerId, l2: LayerId, n: NodeId| #[trigger] self.owns(l1, n) && #[trigger] self.owns(l2, n)
            ==> l1 == l2
    }

    /// The document everything else leaves unchanged.
    pub open spec fn same_meta(&self, other: &Document) -> bool {
        &&& self.version == other.version
        &&& self.title@ == other.title@
        &&& self.artboards@ == other.artboards@
    }

    /// A new document: version 1, titled "Untitled", one empty layer "Layer 1".
    pub fn new_default() -> (d: Document)
        ensures
            d.wf(),
            d.version == CURRENT_VERSION,
            d.title@ == "Untitled"@,
            d.layers@.len() == 1,
            d.layer_map().dom() == set![d.layers@[0]],
            d.layer_map()[d.layers@[0]].name@ == "Layer 1"@,
            d.layer_map()[d.layers@[0]].visible,
            !d.layer_map()[d.layers@[0]].locked,
            d.layer_map()[d.layers@[0]].opacity == F32_ONE,
            d.layer_map()[d.layers@[0]].blend == BlendMode::Normal,
            d.layer_map()[d.layers@[0]].kind == LayerKind::Normal,
            d.layer_map()[d.layers@[0]].nodes@.len() == 0,
            d.node_map().is_empty(),
            d.artboards@.len() == 0,
    {
        let mut layer_arena = layer_arena_new();
        let id = layer_arena_insert(&mut layer_arena, Layer::new(String::from_str("Layer 1")));
        let mut layers = Vec::new();
        layers.push(id);
        let d = Document {
            version: CURRENT_VERSION,
            title: String::from_str("Untitled"),
            layers,
            layer_arena,
            node_arena: node_arena_new(),
            artboards: Vec::new(),
        };
        proof {
            assert(d.layer_map().dom() =~= set![id]);
            assert(d.layers@ =~= seq![id]);
            assert(d.node_map().dom() =~= Set::empty());
            assert forall|l: LayerId| #[trigger] d.layers@.contains(l) <==> d.layer_map().dom().contains(l) by {
                if d.layers@.contains(l) {
                    let j = choose|j: int| 0 <= j < d.layers@.len() && d.layers@[j] == l;
                }
                if l == id {
                    assert(d.layers@[0] == id);
                }
            }
        }
        d
    }

    /// Add `layer` on top of all others.
    pub fn add_layer(&mut self, layer: Layer) -> (id: LayerId)
        requires
            old(self).layer_map().dom().finite(),
            old(self).layer_room(1),
        ensures
            !old(self).layer_map().dom().contains(id),
            final(self).layer_map() == old(self).layer_map().insert(id, layer),
            final(self).layers@ == seq![id] + old(self).layers@,
            final(self).node_map() == old(self).node_map(),
            final(self).same_meta(old(self)),
            old(self).wf() && layer.nodes@.len() == 0 ==> final(self).wf(),
    {
        let id = layer_arena_insert(&mut self.layer_arena, layer);
        self.layers.insert(0, id);
        proof {
            assert(self.layers@ =~= seq![id] + old(self).layers@);
            if old(self).wf() && layer.nodes@.len() == 0 {
                let o = old(self);
                assert(!o.layers@.contains(id));
                assert forall|l: LayerId| #[trigger] self.layers@.contains(l)
                    <==> self.layer_map().dom().contains(l) by {
                    if self.layers@.contains(l) && l != id {
                        let j = choose|j: int| 0 <= j < self.layers@.len() && self.layers@[j] == l;
                        assert(o.layers@[j - 1] == l);
                    }
                    if o.layers@.contains(l) {
                        let j = choose|j: int| 0 <= j < o.layers@.len() && o.layers@[j] == l;
                        assert(self.layers@[j + 1] == l);
                    }
                    assert(self.layers@[0] == id);
                }
                assert forall|i: int, j: int|
                    0 <= i < self.layers@.len() && 0 <= j < self.layers@.len() && i != j
                    implies self.layers@[i] != self.layers@[j] by {
                    if i == 0 && j > 0 {
                        assert(o.layers@.contains(self.layers@[j]));
                    } else if j == 0 && i > 0 {
                        assert(o.layers@.contains(self.layers@[i]));
                    }
                }
                assert forall|l: LayerId, n: NodeId| #[trigger] self.owns(l, n) implies o.owns(l, n) by {
                    if l == id {
                        assert(self.layer_map()[l].nodes@.len() == 0);
                    }
                }
            }
        }
        id
    }

    /// Remove layer `id` together with the nodes it lists; give it back.
    pub fn remove_layer(&mut self, id: LayerId) -> (r: Option<Layer>)
        ensures
            r == (if old(self).layer_map().dom().contains(id) {
                Some(old(self).layer_map()[id])
            } else {
                None
            }),
            final(self).layer_map() == old(self).layer_map().remove(id),
            final(self).node_map() == (if old(self).layer_map().dom().contains(id) {
                old(self).node_map().remove_keys(old(self).layer_map()[id].nodes@.to_set())
            } else {
                old(self).node_map()
            }),
            final(self).layers@ == (if old(self).layer_map().dom().contains(id) {
                seq_without(old(self).layers@, id)
            } else {
                old(self).layers@
            }),
            final(self).same_meta(old(self)),
            old(self).wf() ==> final(self).wf(),
    {
        let layer = match layer_arena_remove(&mut self.layer_arena, id) {
            Some(l) => l,
            None => {
                assert(old(self).layer_map().remove(id) =~= old(self).layer_map());
                proof {
                    if old(self).wf() {
                        lemma_wf_same(old(self), self);
                    }
                }
                return None;
            },
        };
        let ghost nodes0 = old(self).node_map();
        let mut i: usize = 0;
        while i < layer.nodes.len()
            invariant
                i <= layer.nodes@.len(),
                layer == old(self).layer_map()[id],
                self.layer_map() == old(self).layer_map().remove(id),
                self.layers@ == old(self).layers@,
                self.same_meta(old(self)),
                self.node_map() == nodes0.remove_keys(layer.nodes@.take(i as int).to_set()),
            decreases layer.nodes@.len() - i,
        {
            let n = layer.nodes[i];
            let _ = node_arena_remove(&mut self.node_arena, n);
            proof {
                let t0 = layer.nodes@.take(i as int);
                let t1 = layer.nodes@.take(i + 1);
                assert(t1 =~= t0.push(n));
                assert(t1.to_set() =~= t0.to_set().insert(n)) by {
                    assert forall|x: NodeId| t1.to_set().contains(x) <==> t0.to_set().insert(n).contains(x) by {
                        if t1.contains(x) && x != n {
                            let j = choose|j: int| 0 <= j < t1.len() && t1[j] == x;
                            assert(t0[j] == x);
                        }
                        if t0.contains(x) {
                            let j = choose|j: int| 0 <= j < t0.len() && t0[j] == x;
                            assert(t1[j] == x);
                        }
                        assert(t1[i as int] == n);
                    }
                }
                assert(self.node_map() =~= nodes0.remove_keys(t1.to_set()));
            }
            i += 1;
        }
        assert(layer.nodes@.take(layer.nodes@.len() as int) =~= layer.nodes@);
        self.layers = without_layer(&self.layers, id);
        proof {
            if old(self).wf() {
                self.lemma_remove_layer_wf(old(self), id, layer);
            }
        }
        Some(layer)
    }

    proof fn lemma_remove_layer_wf(&self, o: &Document, id: LayerId, layer: Layer)
        requires
            o.wf(),
            o.layer_map().dom().contains(id),
            layer == o.layer_map()[id],
            self.layer_map() == o.layer_map().remove(id),
            self.node_map() == o.node_map().remove_keys(layer.nodes@.to_set()),
            self.layers@ == seq_without(o.layers@, id),
        ensures
            self.wf(),
    {
        lemma_without_no_duplicates(o.layers@, id);
        assert forall|l: LayerId| #[trigger] self.layers@.contains(l)
            <==> self.layer_map().dom().contains(l) by {
            lemma_without_contains(o.layers@, id, l);
        }
        assert forall|l: LayerId, n: NodeId| #[trigger] self.owns(l, n)
            implies self.node_map().dom().contains(n) by {
            assert(o.owns(l, n));
            if layer.nodes@.to_set().contains(n) {
                assert(o.owns(id, n));
            }
        }
        assert forall|l1: LayerId, l2: LayerId, n: NodeId| #[trigger] self.owns(l1, n)
            && #[trigger] self.owns(l2, n) implies l1 == l2 by {
            assert(o.owns(l1, n) && o.owns(l2, n));
        }
        assert(self.layer_map().dom().finite());
        assert(self.node_map().dom() =~= o.node_map().dom().difference(layer.nodes@.to_set()));
    }

    /// Add `node` to the document, and list it on top of layer `layer_id`.
    /// When there is no such layer, nothing is stored and the result is
    /// `None`: every node belongs to a layer.
    pub fn add_node(&mut self, layer_id: LayerId, node: Node) -> (r: Option<NodeId>)
        requires
            old(self).node_map().dom().finite(),
            old(self).node_room(1),
        ensures
            old(self).layer_map().dom().contains(layer_id) ==> exists|n: NodeId| {
                &&& !old(self).node_map().dom().contains(n)
                &&& final(self).node_map() == old(self).node_map().insert(n, node)
                &&& r == Some(n)
                &&& final(self).layer_map()[layer_id].nodes@ == old(self).layer_map()[layer_id].nodes@.push(n)
                &&& same_but_nodes(final(self).layer_map()[layer_id], old(self).layer_map()[layer_id])
            },
            !old(self).layer_map().dom().contains(layer_id) ==> r is None && *final(self) == *old(self),
            final(self).layer_map().dom() == old(self).layer_map().dom(),
            forall|l: LayerId| l != layer_id ==> #[trigger] final(self).layer_map()[l] == old(self).layer_map()[l],
            final(self).layers@ == old(self).layers@,
            final(self).same_meta(old(self)),
            old(self).wf() ==> final(self).wf(),
            old(self).all_listed() ==> final(self).all_listed(),
    {
        if layer_arena_get(&self.layer_arena, layer_id).is_none() {
            return None;
        }
        let node_id = node_arena_insert(&mut self.node_arena, node);
        let layer = layer_arena_get_mut(&mut self.layer_arena, layer_id);
        layer.nodes.push(node_id);
        proof {
            let o = old(self);
            if o.wf() {
                let nl = self.layer_map()[layer_id];
                assert(nl.nodes@ == o.layer_map()[layer_id].nodes@.push(node_id));
                assert(!o.layer_map()[layer_id].nodes@.contains(node_id)) by {
                    if o.layer_map()[layer_id].nodes@.contains(node_id) {
                        assert(o.owns(layer_id, node_id));
                    }
                }
                assert forall|l: LayerId, n: NodeId| #[trigger] self.owns(l, n)
                    implies (o.owns(l, n) || (l == layer_id && n == node_id)) by {
                    if l == layer_id && n != node_id {
                        let j = choose|j: int| 0 <= j < nl.nodes@.len() && nl.nodes@[j] == n;
                        assert(o.layer_map()[layer_id].nodes@[j] == n);
                    }
                }
                assert forall|l: LayerId| #[trigger] self.layer_map().dom().contains(l)
                    implies self.layer_map()[l].nodes@.no_duplicates() by {
                    if l == layer_id {
                        assert forall|a: int, b: int| 0 <= a < nl.nodes@.len() && 0 <= b < nl.nodes@.len() && a != b
                            implies nl.nodes@[a] != nl.nodes@[b] by {
                            let ol = o.layer_map()[layer_id].nodes@;
                            if a < ol.len() && b < ol.len() {
                            } else if a < ol.len() {
                                assert(ol.contains(ol[a]));
                            } else if b < ol.len() {
                                assert(ol.contains(ol[b]));
                            }
                        }
                    }
                }
                assert forall|l: LayerId, n: NodeId| #[trigger] self.owns(l, n)
                    implies self.node_map().dom().contains(n) by {
                    if !(l == layer_id && n == node_id) {
                        assert(o.owns(l, n));
                    }
                }
                assert forall|l1: LayerId, l2: LayerId, n: NodeId| #[trigger] self.owns(l1, n)
                    && #[trigger] self.owns(l2, n) implies l1 == l2 by {
                    if n == node_id {
                        if o.owns(l1, n) {
                            assert(o.node_map().dom().contains(n));
                        }
                        if o.owns(l2, n) {
                            assert(o.node_map().dom().contains(n));
                        }
                    } else {
                        assert(o.owns(l1, n) && o.owns(l2, n));
                    }
                }
            }
        }
        proof {
            let o = old(self);
            let nl = self.layer_map()[layer_id];
            assert(nl.nodes@ == o.layer_map()[layer_id].nodes@.push(node_id));
            assert(self.owns(layer_id, node_id)) by {
                assert(nl.nodes@[nl.nodes@.len() - 1] == node_id);
            }
            if o.all_listed() {
                assert forall|n: NodeId| #[trigger] self.node_map().dom().contains(n)
                    implies exists|l: LayerId| self.owns(l, n) by {
                    if n != node_id {
                        assert(o.node_map().dom().contains(n));
                        let l = choose|l: LayerId| o.owns(l, n);
                        if l == layer_id {
                            let j = choose|j: int| 0 <= j < o.layer_map()[l].nodes@.len()
                                && o.layer_map()[l].nodes@[j] == n;
                            assert(nl.nodes@[j] == n);
                        }
                        assert(self.owns(l, n));
                    }
                }
            }
        }
        Some(node_id)
    }

    /// Remove node `id` from the document and from every layer's list.
    pub fn remove_node(&mut self, id: NodeId) -> (r: Option<Node>)
        ensures
            r == (if old(self).node_map().dom().contains(id) {
                Some(old(self).node_map()[id])
            } else {
                None
            }),
            final(self).node_map() == old(self).node_map().remove(id),
            final(self).layer_map().dom() == old(self).layer_map().dom(),
            forall|l: LayerId| #[trigger] final(self).layer_map().dom().contains(l) ==> {
                &&& same_but_nodes(final(self).layer_map()[l], old(self).layer_map()[l])
                &&& final(self).layer_map()[l].nodes@ == (if old(self).node_map().dom().contains(id) {
                    seq_without(old(self).layer_map()[l].nodes@, id)
                } else {
                    old(self).layer_map()[l].nodes@
                })
            },
            final(self).layers@ == old(self).layers@,
            final(self).same_meta(old(self)),
            old(self).wf() ==> final(self).wf(),
    {
        let node = match node_arena_remove(&mut self.node_arena, id) {
            Some(n) => n,
            None => {
                assert(old(self).node_map().remove(id) =~= old(self).node_map());
                proof {
                    if old(self).wf() {
                        lemma_wf_same(old(self), self);
                    }
                    assert forall|l: LayerId| #[trigger] self.layer_map().dom().contains(l) implies
                        same_but_nodes(self.layer_map()[l], old(self).layer_map()[l]) by {}
                }
                return None;
            },
        };
        let keys = layer_arena_keys(&self.layer_arena);
        let ghost o = *old(self);
        let mut i: usize = 0;
        while i < keys.len()
            invariant
                i <= keys@.len(),
                keys@.no_duplicates(),
                keys@.to_set() == o.layer_map().dom(),
                o.node_map().dom().contains(id),
                self.node_map() == o.node_map().remove(id),
                self.layers@ == o.layers@,
                self.same_meta(&o),
                self.layer_map().dom() == o.layer_map().dom(),
                forall|l: LayerId| #[trigger] self.layer_map().dom().contains(l) ==> {
                    &&& same_but_nodes(self.layer_map()[l], o.layer_map()[l])
                    &&& self.layer_map()[l].nodes@ == (if keys@.take(i as int).contains(l) {
                        seq_without(o.layer_map()[l].nodes@, id)
                    } else {
                        o.layer_map()[l].nodes@
                    })
                },
            decreases keys@.len() - i,
        {
            let k = keys[i];
            assert(keys@.to_set().contains(k));
            assert(!keys@.take(i as int).contains(k)) by {
                let t0 = keys@.take(i as int);
                if t0.contains(k) {
                    let j = choose|j: int| 0 <= j < t0.len() && t0[j] == k;
                    assert(keys@[j] == keys@[i as int]);
                }
            }
            let layer = layer_arena_get_mut(&mut self.layer_arena, k);
            let kept = without_node(&layer.nodes, id);
            layer.nodes = kept;
            proof {
                let t0 = keys@.take(i as int);
                let t1 = keys@.take(i + 1);
                assert forall|l: LayerId| #[trigger] t1.contains(l) <==> (t0.contains(l) || l == k) by {
                    if t1.contains(l) && l != k {
                        let j = choose|j: int| 0 <= j < t1.len() && t1[j] == l;
                        assert(t0[j] == l);
                    }
                    if t0.contains(l) {
                        let j = choose|j: int| 0 <= j < t0.len() && t0[j] == l;
                        assert(t1[j] == l);
                    }
                    assert(t1[i as int] == k);
                }
            }
            i += 1;
        }
        proof {
            assert forall|l: LayerId| o.layer_map().dom().contains(l) implies #[trigger] keys@.take(keys@.len() as int).contains(l) by {
                assert(keys@.take(keys@.len() as int) =~= keys@);
                assert(keys@.to_set().contains(l));
            }
            if o.wf() {
                assert forall|l: LayerId, n: NodeId| #[trigger] self.owns(l, n)
                    implies (o.owns(l, n) && n != id) by {
                    lemma_without_contains(o.layer_map()[l].nodes@, id, n);
                    assert(keys@.take(keys@.len() as int).contains(l));
                }
                assert forall|l: LayerId| #[trigger] self.layer_map().dom().contains(l)
                    implies self.layer_map()[l].nodes@.no_duplicates() by {
                    assert(keys@.take(keys@.len() as int).contains(l));
                    lemma_without_no_duplicates(o.layer_map()[l].nodes@, id);
                }
                assert forall|l: LayerId, n: NodeId| #[trigger] self.owns(l, n)
                    implies self.node_map().dom().contains(n) by {
                    assert(o.owns(l, n) && n != id);
                }
                assert forall|l1: LayerId, l2: LayerId, n: NodeId| #[trigger] self.owns(l1, n)
                    && #[trigger] self.owns(l2, n) implies l1 == l2 by {
                    assert(o.owns(l1, n) && o.owns(l2, n));
                }
                assert forall|l: LayerId| #[trigger] self.layers@.contains(l)
                    <==> self.layer_map().dom().contains(l) by {
                }
            }
        }
        Some(node)
    }

    /// The layer that lists node `node_id`, if any.
    pub fn layer_of(&self, node_id: NodeId) -> (r: Option<LayerId>)
        ensures
            r matches Some(l) ==> self.owns(l, node_id),
            r is None <==> forall|l: LayerId| !#[trigger] self.owns(l, node_id),
    {
        let keys = layer_arena_keys(&self.layer_arena);
        let mut i: usize = 0;
        while i < keys.len()
            invariant
                i <= keys@.len(),
                keys@.to_set() == self.layer_map().dom(),
                forall|j: int| 0 <= j < i ==> !#[trigger] self.owns(keys@[j], node_id),
            decreases keys@.len() - i,
        {
            let k = keys[i];
            assert(keys@.to_set().contains(k));
            let layer = layer_arena_get(&self.layer_arena, k).unwrap();
            if vec_has_node(&layer.nodes, node_id) {
                assert(self.owns(k, node_id));
                return Some(k);
            }
            i += 1;
        }
        assert forall|l: LayerId| !#[trigger] self.owns(l, node_id) by {
            if self.owns(l, node_id) {
                assert(keys@.to_set().contains(l));
                let j = choose|j: int| 0 <= j < keys@.len() && keys@[j] == l;
            }
        }
        None
    }

    /// The layer `id`, if the document holds it.
    pub fn layer(&self, id: LayerId) -> (r: Option<&Layer>)
        ensures
            r == (if self.layer_map().dom().contains(id) {
                Some(&self.layer_map()[id])
            } else {
                None
            }),
    {
        layer_arena_get(&self.layer_arena, id)
    }

    /// The node `id`, if the document holds it.
    pub fn node(&self, id: NodeId) -> (r: Option<&Node>)
        ensures
            r == (if self.node_map().dom().contains(id) {
                Some(&self.node_map()[id])
            } else {
                None
            }),
    {
        node_arena_get(&self.node_arena, id)
    }

    /// The layer `id`, for changing it in place.
    pub fn layer_mut(&mut self, id: LayerId) -> (r: &mut Layer)
        requires
            old(self).layer_map().dom().contains(id),
        ensures
            *r == old(self).layer_map()[id],
            final(self).layer_map() == old(self).layer_map().insert(id, *final(r)),
            final(self).node_map() == old(self).node_map(),
            final(self).layers@ == old(self).layers@,
            final(self).same_meta(old(self)),
    {
        layer_arena_get_mut(&mut self.layer_arena, id)
    }

    /// The node `id`, for changing it in place.
    pub fn node_mut(&mut self, id: NodeId) -> (r: &mut Node)
        requires
            old(self).node_map().dom().contains(id),
        ensures
            *r == old(self).node_map()[id],
            final(self).node_map() == old(self).node_map().insert(id, *final(r)),
            final(self).layer_map() == old(self).layer_map(),
            final(self).layers@ == old(self).layers@,
            final(self).same_meta(old(self)),
    {
        node_arena_get_mut(&mut self.node_arena, id)
    }

    /// Every node id held, each once, in storage order.
    pub fn node_ids(&self) -> (r: Vec<NodeId>)
        ensures
            r@.no_duplicates(),
            r@.to_set() == self.node_map().dom(),
    {
        node_arena_keys(&self.node_arena)
    }

    /// Every layer id held, each once, in storage order.
    pub fn layer_ids(&self) -> (r: Vec<LayerId>)
        ensures
            r@.no_duplicates(),
            r@.to_set() == self.layer_map().dom(),
    {
        layer_arena_keys(&self.layer_arena)
    }

    /// Number of layers held.
    pub fn layer_count(&self) -> (n: usize)
        ensures
            n == self.layer_map().len(),
    {
        layer_arena_len(&self.layer_arena)
    }

    /// Number of nodes held.
    pub fn node_count(&self) -> (n: usize)
        ensures
            n == self.node_map().len(),
    {
        node_arena_len(&self.node_arena)
    }
}

/// Well-formedness depends only on the maps and the layer order.
pub proof fn lemma_wf_same(a: &Document, b: &Document)
    requires
        a.wf(),
        a.layer_map() == b.layer_map(),
        a.node_map() == b.node_map(),
        a.layers@ == b.layers@,
    ensures
        b.wf(),
{
    assert forall|l: LayerId, n: NodeId| #[trigger] b.owns(l, n)
        implies b.node_map().dom().contains(n) by {
        assert(a.owns(l, n));
    }
    assert forall|l1: LayerId, l2: LayerId, n: NodeId| #[trigger] b.owns(l1, n)
        && #[trigger] b.owns(l2, n) implies l1 == l2 by {
        assert(a.owns(l1, n) && a.owns(l2, n));
    }
}

impl Default for Document {
    /// Version 1, titled "Untitled", one empty layer "Layer 1".
    fn default() -> (d: Document)
        ensures
            d.wf(),
            d.version == CURRENT_VERSION,
            d.title@ == "Untitled"@,
            d.layers@.len() == 1,
            d.layer_map().dom() == set![d.layers@[0]],
            d.layer_map()[d.layers@[0]].name@ == "Layer 1"@,
            d.layer_map()[d.layers@[0]].visible,
            !d.layer_map()[d.layers@[0]].locked,
            d.layer_map()[d.layers@[0]].opacity == F32_ONE,
            d.layer_map()[d.layers@[0]].blend == BlendMode::Normal,
            d.layer_map()[d.layers@[0]].kind == LayerKind::Normal,
            d.layer_map()[d.layers@[0]].nodes@.len() == 0,
            d.node_map().is_empty(),
            d.artboards@.len() == 0,
    {
        Document::new_default()
    }
}

/// `v` with every `id` taken out.
pub fn without_layer(v: &Vec<LayerId>, id: LayerId) -> (r: Vec<LayerId>)
    ensures
        r@ == seq_without(v@, id),
{
    let mut r: Vec<LayerId> = Vec::new();
    let mut i: usize = 0;
    while i < v.len()
        invariant
            i <= v@.len(),
            r@ == seq_without(v@.take(i as int), id),
        decreases v@.len() - i,
    {
        proof { lemma_without_take_step(v@, id, i as int); }
        if v[i] != id {
            r.push(v[i]);
        }
        i += 1;
    }
    assert(v@.take(v@.len() as int) =~= v@);
    r
}

/// `v` with every `id` taken out.
pub fn without_node(v: &Vec<NodeId>, id: NodeId) -> (r: Vec<NodeId>)
    ensures
        r@ == seq_without(v@, id),
{
    let mut r: Vec<NodeId> = Vec::new();
    let mut i: usize = 0;
    while i < v.len()
        invariant
            i <= v@.len(),
            r@ == seq_without(v@.take(i as int), id),
        decreases v@.len() - i,
    {
        proof { lemma_without_take_step(v@, id, i as int); }
        if v[i] != id {
            r.push(v[i]);
        }
        i += 1;
    }
    assert(v@.take(v@.len() as int) =~= v@);
    r
}

/// Whether `v` lists `id`.
pub fn vec_has_node(v: &Vec<NodeId>, id: NodeId) -> (b: bool)
    ensures
        b == v@.contains(id),
{
    let mut i: usize = 0;
    while i < v.len()
        invariant
            i <= v@.len(),
            forall|j: int| 0 <= j < i ==> v@[j] != id,
        decreases v@.len() - i,
    {
        if v[i] == id {
            assert(v@[i as int] == id);
            return true;
        }
        i += 1;
    }
    false
}

} // verus!
