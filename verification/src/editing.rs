//! Editing rules of the canvas tools: what a click does to the selection,
//! which nodes can be picked, how a dragged handle reshapes its anchor,
//! typing into a text node, and the layer commands.
//!
//! Hit testing (is the cursor inside a node's bounds, near an anchor) is
//! floating-point work; the caller does it and hands in its outcome.

use vstd::prelude::*;
use crate::arena::{LayerId, NodeId};
use crate::deep_copy::same_style;
use crate::doc::{same_but_nodes, Document, Layer, LayerKind, Node, NodeKind};
use crate::edits::AddNodeCmd;
use crate::image::{ImageData, ImageNode};
use crate::path::Anchor;
use crate::pen::DrawDefaults;
use crate::selection::Selection;
use crate::seqs::seq_without;
use crate::strings::{decimal, numbered, pop_char, push_char};
use crate::style::{
    f64_neg, BlendMode, Color, Style, Vec2, F32_HALF, F32_ONE, F32_ZERO, F64_24,
};
use crate::text::{FontFamily, TextNode};
use crate::tools::HandlePart;

verus! {

/// Layer `l` of `d` exists, is visible and is not locked.
pub open spec fn pickable(d: Document, l: LayerId) -> bool {
    &&& d.layer_map().dom().contains(l)
    &&& d.layer_map()[l].visible
    &&& !d.layer_map()[l].locked
}

/// The nodes listed on the pickable layers among `ls`, layer by layer.
pub open spec fn listed(d: Document, ls: Seq<LayerId>) -> Seq<NodeId>
    decreases ls.len(),
{
    if ls.len() == 0 {
        seq![]
    } else {
        listed(d, ls.drop_last()) + (if pickable(d, ls.last()) {
            d.layer_map()[ls.last()].nodes@
        } else {
            seq![]
        })
    }
}

/// Like `listed`, with each layer's nodes topmost first.
pub open spec fn pick_seq(d: Document, ls: Seq<LayerId>) -> Seq<NodeId>
    decreases ls.len(),
{
    if ls.len() == 0 {
        seq![]
    } else {
        pick_seq(d, ls.drop_last()) + (if pickable(d, ls.last()) {
            d.layer_map()[ls.last()].nodes@.reverse()
        } else {
            seq![]
        })
    }
}

/// The nodes of the visible, unlocked layers, topmost layer first, each
/// layer's nodes in paint order.
pub fn selectable_nodes(doc: &Document) -> (r: Vec<NodeId>)
    ensures
        r@ == listed(*doc, doc.layers@),
{
    let mut r: Vec<NodeId> = Vec::new();
    let mut i: usize = 0;
    while i < doc.layers.len()
        invariant
            i <= doc.layers@.len(),
            r@ == listed(*doc, doc.layers@.take(i as int)),
        decreases doc.layers@.len() - i,
    {
        let l = doc.layers[i];
        proof {
            assert(doc.layers@.take(i + 1).drop_last() =~= doc.layers@.take(i as int));
            assert(doc.layers@.take(i + 1).last() == l);
        }
        match doc.layer(l) {
            Some(layer) => {
                if layer.visible && !layer.locked {
                    let mut j: usize = 0;
                    let ghost r0 = r@;
                    while j < layer.nodes.len()
                        invariant
                            j <= layer.nodes@.len(),
                            r@ == r0 + layer.nodes@.take(j as int),
                        decreases layer.nodes@.len() - j,
                    {
                        r.push(layer.nodes[j]);
                        assert(layer.nodes@.take(j + 1) =~= layer.nodes@.take(j as int).push(layer.nodes@[j as int]));
                        j += 1;
                    }
                    assert(layer.nodes@.take(layer.nodes@.len() as int) =~= layer.nodes@);
                } else {
                    assert(r@ =~= r@ + Seq::<NodeId>::empty());
                }
            },
            None => {
                assert(r@ =~= r@ + Seq::<NodeId>::empty());
            },
        }
        i += 1;
    }
    assert(doc.layers@.take(doc.layers@.len() as int) =~= doc.layers@);
    r
}

/// The pickable nodes in hit-test order: topmost layer first, within a
/// layer the last-painted node first. The first whose bounds hold the
/// cursor is the one picked.
pub fn pick_order(doc: &Document) -> (r: Vec<NodeId>)
    ensures
        r@ == pick_seq(*doc, doc.layers@),
{
    let mut r: Vec<NodeId> = Vec::new();
    let mut i: usize = 0;
    while i < doc.layers.len()
        invariant
            i <= doc.layers@.len(),
            r@ == pick_seq(*doc, doc.layers@.take(i as int)),
        decreases doc.layers@.len() - i,
    {
        let l = doc.layers[i];
        proof {
            assert(doc.layers@.take(i + 1).drop_last() =~= doc.layers@.take(i as int));
            assert(doc.layers@.take(i + 1).last() == l);
        }
        match doc.layer(l) {
            Some(layer) => {
                if layer.visible && !layer.locked {
                    let n = layer.nodes.len();
                    let mut j: usize = 0;
                    let ghost r0 = r@;
                    while j < n
                        invariant
                            n == layer.nodes@.len(),
                            j <= n,
                            r@.len() == r0.len() + j,
                            forall|k: int| 0 <= k < r0.len() ==> r@[k] == r0[k],
                            forall|k: int| 0 <= k < j ==> #[trigger] r@[r0.len() + k] == layer.nodes@[n - 1 - k],
                        decreases n - j,
                    {
                        r.push(layer.nodes[n - 1 - j]);
                        j += 1;
                    }
                    assert(r@ =~= r0 + layer.nodes@.reverse()) by {
                        assert forall|k: int| r0.len() <= k < r@.len() implies r@[k] == (r0 + layer.nodes@.reverse())[k] by {
                            assert(r@[r0.len() + (k - r0.len())] == layer.nodes@[n - 1 - (k - r0.len())]);
                        }
                    }
                } else {
                    assert(r@ =~= r@ + Seq::<NodeId>::empty());
                }
            },
            None => {
                assert(r@ =~= r@ + Seq::<NodeId>::empty());
            },
        }
        i += 1;
    }
    assert(doc.layers@.take(doc.layers@.len() as int) =~= doc.layers@);
    r
}

/// Select every node of the visible, unlocked layers (and nothing else).
pub fn select_all(doc: &Document, sel: &mut Selection)
    ensures
        final(sel)@ == listed(*doc, doc.layers@).to_set(),
{
    let ids = selectable_nodes(doc);
    sel.clear();
    let mut i: usize = 0;
    while i < ids.len()
        invariant
            i <= ids@.len(),
            sel@ == ids@.take(i as int).to_set(),
        decreases ids@.len() - i,
    {
        sel.insert(ids[i]);
        proof {
            assert(ids@.take(i + 1) =~= ids@.take(i as int).push(ids@[i as int]));
            crate::seqs::lemma_push_to_set(ids@.take(i as int), ids@[i as int]);
        }
        i += 1;
    }
    assert(ids@.take(ids@.len() as int) =~= ids@);
}

/// The selection after a click on `hit` with selection `s`.
pub open spec fn clicked(s: Set<NodeId>, hit: Option<NodeId>, shift: bool) -> Set<NodeId> {
    match hit {
        Some(id) => if !shift {
            set![id]
        } else if s.contains(id) {
            s.remove(id)
        } else {
            s.insert(id)
        },
        None => if shift { s } else { Set::empty() },
    }
}

/// Shift-clicking the same node twice gives back the selection.
pub proof fn law_shift_click_twice(s: Set<NodeId>, id: NodeId)
    ensures
        clicked(clicked(s, Some(id), true), Some(id), true) == s,
{
    if s.contains(id) {
        assert(s.remove(id).insert(id) =~= s);
    } else {
        assert(s.insert(id).remove(id) =~= s);
    }
}

/// A click with the selection tools on `hit` (the node under the cursor,
/// if any). Without Shift the clicked node becomes the selection (or the
/// selection empties); with Shift the clicked node is toggled.
pub fn click_select(sel: &mut Selection, hit: Option<NodeId>, shift: bool)
    ensures
        final(sel)@ == clicked(old(sel)@, hit, shift),
{
    match hit {
        Some(id) => {
            if shift {
                if sel.contains(id) {
                    sel.remove(id);
                } else {
                    sel.insert(id);
                }
            } else {
                sel.clear();
                sel.insert(id);
                assert(sel@ =~= set![id]);
            }
        },
        None => {
            if !shift {
                sel.clear();
            }
        },
    }
}

/// A press of the Select tool on `hit`: pressing an unselected node makes
/// it the selection (or adds it, with Shift); pressing a selected node keeps
/// the selection; pressing nothing empties it unless Shift is held. Says
/// whether a move of the selection starts (otherwise a marquee does).
pub fn press_select(sel: &mut Selection, hit: Option<NodeId>, shift: bool) -> (moving: bool)
    ensures
        moving == hit is Some,
        final(sel)@ == match hit {
            Some(id) => if old(sel)@.contains(id) {
                old(sel)@
            } else if shift {
                old(sel)@.insert(id)
            } else {
                set![id]
            },
            None => if shift { old(sel)@ } else { Set::empty() },
        },
{
    match hit {
        Some(id) => {
            if !sel.contains(id) {
                if !shift {
                    sel.clear();
                }
                sel.insert(id);
                assert(!shift ==> sel@ =~= set![id]);
            }
            true
        },
        None => {
            if !shift {
                sel.clear();
            }
            false
        },
    }
}

/// A press of the Direct Select tool away from any anchor or handle, on
/// `hit`: the node is selected (alone, unless Shift is held); pressing
/// nothing empties the selection unless Shift is held.
pub fn direct_press_select(sel: &mut Selection, hit: Option<NodeId>, shift: bool)
    ensures
        final(sel)@ == match hit {
            Some(id) => if shift { old(sel)@.insert(id) } else { set![id] },
            None => if shift { old(sel)@ } else { Set::empty() },
        },
{
    match hit {
        Some(id) => {
            if !shift {
                sel.clear();
            }
            sel.insert(id);
            assert(!shift ==> sel@ =~= set![id]);
        },
        None => {
            if !shift {
                sel.clear();
            }
        },
    }
}

/// After a node was added on top of `layer`: select that layer's topmost
/// node alone, and give its id.
pub fn select_last_of_layer(doc: &Document, layer: LayerId, sel: &mut Selection) -> (r: Option<NodeId>)
    ensures
        r == (if doc.layer_map().dom().contains(layer) && doc.layer_map()[layer].nodes@.len() > 0 {
            Some(doc.layer_map()[layer].nodes@.last())
        } else {
            None
        }),
        r matches Some(id) ==> final(sel)@ == set![id],
        r is None ==> final(sel)@ == old(sel)@,
{
    match doc.layer(layer) {
        Some(l) => {
            let n = l.nodes.len();
            if n > 0 {
                let id = l.nodes[n - 1];
                sel.clear();
                sel.insert(id);
                assert(sel@ =~= set![id]);
                Some(id)
            } else {
                None
            }
        },
        None => None,
    }
}

/// The anchor after dragging one of its handles to `v` (relative to the
/// anchor): the dragged handle takes `v`; if the anchor was smooth and
/// symmetry is kept, the other handle mirrors `v`; if symmetry is broken
/// (Alt held), the anchor becomes a corner.
pub open spec fn handle_dragged(a: Anchor, which: HandlePart, v: Vec2, was_smooth: bool, break_symmetry: bool) -> Anchor {
    let m = Vec2 { x: f64_neg(v.x), y: f64_neg(v.y) };
    let a1 = match which {
        HandlePart::Out => Anchor { out_handle: v, ..a },
        HandlePart::In => Anchor { in_handle: v, ..a },
    };
    if was_smooth && !break_symmetry {
        match which {
            HandlePart::Out => Anchor { in_handle: m, ..a1 },
            HandlePart::In => Anchor { out_handle: m, ..a1 },
        }
    } else if break_symmetry {
        Anchor { smooth: false, ..a1 }
    } else {
        a1
    }
}

pub fn drag_handle(a: Anchor, which: HandlePart, v: Vec2, was_smooth: bool, break_symmetry: bool) -> (r: Anchor)
    ensures
        r == handle_dragged(a, which, v, was_smooth, break_symmetry),
{
    let mut r = a;
    match which {
        HandlePart::Out => {
            r.out_handle = v;
            if was_smooth && !break_symmetry {
                r.in_handle = v.neg();
            } else if break_symmetry {
                r.smooth = false;
            }
        },
        HandlePart::In => {
            r.in_handle = v;
            if was_smooth && !break_symmetry {
                r.out_handle = v.neg();
            } else if break_symmetry {
                r.smooth = false;
            }
        },
    }
    r
}

/// Dragging a handle: the dragged handle takes `v` and the anchor stays
/// where it is. A smooth anchor dragged with symmetry kept stays smooth and
/// its other handle mirrors `v` through the anchor; with symmetry broken
/// the anchor becomes a corner and the other handle stays; a corner anchor
/// dragged without Alt keeps its other handle and stays a corner.
pub proof fn law_drag_handle(a: Anchor, which: HandlePart, v: Vec2, was_smooth: bool, break_symmetry: bool)
    ensures
        ({
            let r = handle_dragged(a, which, v, was_smooth, break_symmetry);
            let mirrored = Vec2 { x: f64_neg(v.x), y: f64_neg(v.y) };
            let (dragged, other, other_before) = match which {
                HandlePart::In => (r.in_handle, r.out_handle, a.out_handle),
                HandlePart::Out => (r.out_handle, r.in_handle, a.in_handle),
            };
            &&& r.pos == a.pos
            &&& dragged == v
            &&& was_smooth && !break_symmetry ==> other == mirrored && r.smooth == a.smooth
            &&& break_symmetry ==> other == other_before && !r.smooth
            &&& !was_smooth && !break_symmetry ==> other == other_before && r.smooth == a.smooth
        }),
{
}

/// A keystroke while a text node is being edited.
#[derive(Clone, Debug)]
pub enum TextEvent {
    /// Typed characters.
    Text(String),
    Backspace,
    Enter { shift: bool },
    Escape,
}

/// The text after one keystroke: typed characters are appended, Backspace
/// drops the last character, Shift+Enter appends a line break; Enter and
/// Escape leave the text alone (they end the edit).
pub open spec fn type_one(s: Seq<char>, e: TextEvent) -> Seq<char> {
    match e {
        TextEvent::Text(t) => s + t@,
        TextEvent::Backspace => if s.len() > 0 { s.drop_last() } else { s },
        TextEvent::Enter { shift } => if shift { s.push('\n') } else { s },
        TextEvent::Escape => s,
    }
}

/// The text after a run of keystrokes.
pub open spec fn typed(s: Seq<char>, evs: Seq<TextEvent>) -> Seq<char>
    decreases evs.len(),
{
    if evs.len() == 0 {
        s
    } else {
        type_one(typed(s, evs.drop_last()), evs.last())
    }
}

/// A keystroke that changes the text.
pub open spec fn edits(e: TextEvent) -> bool {
    match e {
        TextEvent::Text(_) => true,
        TextEvent::Backspace => true,
        TextEvent::Enter { shift } => shift,
        TextEvent::Escape => false,
    }
}

/// A keystroke that ends the edit (Enter without Shift, or Escape).
pub open spec fn ends(e: TextEvent) -> bool {
    match e {
        TextEvent::Enter { shift } => !shift,
        TextEvent::Escape => true,
        _ => false,
    }
}

pub open spec fn any_edit(evs: Seq<TextEvent>) -> bool {
    exists|i: int| 0 <= i < evs.len() && edits(#[trigger] evs[i])
}

pub open spec fn any_end(evs: Seq<TextEvent>) -> bool {
    exists|i: int| 0 <= i < evs.len() && ends(#[trigger] evs[i])
}

/// Node `id` of `d` is a text node.
pub open spec fn is_text_node(d: Document, id: NodeId) -> bool {
    d.node_map().dom().contains(id) && d.node_map()[id].kind is Text
}

/// The text of text node `id` of `d`.
pub open spec fn text_of(d: Document, id: NodeId) -> Seq<char> {
    d.node_map()[id].kind->Text_0.text@
}

/// `b` is the text node `a` with its text replaced by `text`.
pub open spec fn retexted(a: Node, b: Node, text: Seq<char>) -> bool {
    &&& b.name@ == a.name@
    &&& b.kind is Text
    &&& b.kind->Text_0.text@ == text
    &&& b.kind->Text_0.position == a.kind->Text_0.position
    &&& b.kind->Text_0.font_size == a.kind->Text_0.font_size
    &&& b.kind->Text_0.family == a.kind->Text_0.family
    &&& b.kind->Text_0.color == a.kind->Text_0.color
    &&& same_style(a.kind->Text_0.style, b.kind->Text_0.style)
    &&& b.kind->Text_0.width == a.kind->Text_0.width
}

/// `d1` is `d0` with node `id` removed from the store and from every layer.
pub open spec fn node_removed(d0: Document, d1: Document, id: NodeId) -> bool {
    &&& d1.node_map() == d0.node_map().remove(id)
    &&& d1.layer_map().dom() == d0.layer_map().dom()
    &&& forall|l: LayerId| #[trigger] d1.layer_map().dom().contains(l) ==> {
        &&& same_but_nodes(d1.layer_map()[l], d0.layer_map()[l])
        &&& d1.layer_map()[l].nodes@ == seq_without(d0.layer_map()[l].nodes@, id)
    }
    &&& d1.layers@ == d0.layers@
    &&& d1.same_meta(&d0)
}

/// `d1` is `d0` with the text of text node `id` replaced by `text`.
pub open spec fn text_replaced(d0: Document, d1: Document, id: NodeId, text: Seq<char>) -> bool {
    &&& d1.node_map().dom() == d0.node_map().dom()
    &&& retexted(d0.node_map()[id], d1.node_map()[id], text)
    &&& forall|n: NodeId| n != id && #[trigger] d0.node_map().dom().contains(n) ==> d1.node_map()[n] == d0.node_map()[n]
    &&& d1.layer_map() == d0.layer_map()
    &&& d1.layers@ == d0.layers@
    &&& d1.same_meta(&d0)
}

/// `d1` is `d0`, store, layers and metadata alike.
pub open spec fn doc_unchanged(d0: Document, d1: Document) -> bool {
    &&& d1.node_map() == d0.node_map()
    &&& d1.layer_map() == d0.layer_map()
    &&& d1.layers@ == d0.layers@
    &&& d1.same_meta(&d0)
}

fn apply_one(s: &mut String, e: &TextEvent)
    ensures
        final(s)@ == type_one(old(s)@, *e),
{
    match e {
        TextEvent::Text(t) => {
            s.append(t.as_str());
        },
        TextEvent::Backspace => {
            let _ = pop_char(s);
        },
        TextEvent::Enter { shift } => {
            if *shift {
                push_char(s, '\n');
            }
        },
        TextEvent::Escape => {},
    }
}

/// Apply the keystrokes to text node `id` (a node that is not text is left
/// alone). Says whether the text was edited.
pub fn apply_text_events(doc: &mut Document, id: NodeId, events: &Vec<TextEvent>) -> (changed: bool)
    ensures
        changed == (is_text_node(*old(doc), id) && any_edit(events@)),
        changed ==> text_replaced(*old(doc), *final(doc), id, typed(text_of(*old(doc), id), events@)),
        !changed ==> doc_unchanged(*old(doc), *final(doc)),
        old(doc).wf() ==> final(doc).wf(),
{
    let ghost evs = events@;
    let (new_node, changed) = match doc.node(id) {
        Some(node) => match &node.kind {
            NodeKind::Text(t) => {
                let mut s = t.text.clone();
                let mut changed = false;
                let mut i: usize = 0;
                while i < events.len()
                    invariant
                        i <= evs.len(),
                        evs == events@,
                        s@ == typed(t.text@, evs.take(i as int)),
                        changed == any_edit(evs.take(i as int)),
                    decreases evs.len() - i,
                {
                    let e = &events[i];
                    proof {
                        let t1 = evs.take(i + 1);
                        assert(t1.drop_last() =~= evs.take(i as int));
                        assert(t1.last() == evs[i as int]);
                        if edits(evs[i as int]) {
                            assert(t1[i as int] == evs[i as int]);
                        }
                        if any_edit(evs.take(i as int)) {
                            let k = choose|k: int| 0 <= k < i && edits(#[trigger] evs.take(i as int)[k]);
                            assert(t1[k] == evs.take(i as int)[k]);
                        }
                        if any_edit(t1) && !edits(evs[i as int]) {
                            let k = choose|k: int| 0 <= k < i + 1 && edits(#[trigger] t1[k]);
                            assert(evs.take(i as int)[k] == t1[k]);
                        }
                    }
                    apply_one(&mut s, e);
                    match e {
                        TextEvent::Text(_) => { changed = true; },
                        TextEvent::Backspace => { changed = true; },
                        TextEvent::Enter { shift } => {
                            if *shift {
                                changed = true;
                            }
                        },
                        TextEvent::Escape => {},
                    }
                    i += 1;
                }
                proof {
                    assert(evs.take(evs.len() as int) =~= evs);
                }
                if changed {
                    let nt = TextNode {
                        position: t.position,
                        text: s,
                        font_size: t.font_size,
                        family: t.family,
                        color: t.color,
                        style: t.style.duplicate(),
                        width: t.width,
                    };
                    (Some(Node { name: node.name.clone(), kind: NodeKind::Text(nt) }), true)
                } else {
                    (None, false)
                }
            },
            _ => (None, false),
        },
        None => (None, false),
    };
    match new_node {
        Some(n) => {
            let slot = doc.node_mut(id);
            *slot = n;
            proof {
                let o = *old(doc);
                assert(doc.node_map().dom() =~= o.node_map().dom());
                if o.wf() {
                    assert forall|l: LayerId, m: NodeId| #[trigger] doc.owns(l, m)
                        implies doc.node_map().dom().contains(m) by {
                        assert(o.owns(l, m));
                    }
                    assert forall|l1: LayerId, l2: LayerId, m: NodeId| #[trigger] doc.owns(l1, m)
                        && #[trigger] doc.owns(l2, m) implies l1 == l2 by {
                        assert(o.owns(l1, m) && o.owns(l2, m));
                    }
                }
            }
        },
        None => {},
    }
    changed
}

/// Stop editing: a text node left empty is removed, and leaves the selection.
pub fn finish_text(doc: &mut Document, editing: &mut Option<NodeId>, sel: &mut Selection)
    ensures
        *final(editing) == None::<NodeId>,
        match *old(editing) {
            Some(id) => if is_text_node(*old(doc), id) && text_of(*old(doc), id).len() == 0 {
                node_removed(*old(doc), *final(doc), id) && final(sel)@ == old(sel)@.remove(id)
            } else {
                doc_unchanged(*old(doc), *final(doc)) && final(sel)@ == old(sel)@
            },
            None => doc_unchanged(*old(doc), *final(doc)) && final(sel)@ == old(sel)@,
        },
        old(doc).wf() ==> final(doc).wf(),
{
    match editing.take() {
        Some(id) => {
            let empty = match doc.node(id) {
                Some(node) => match &node.kind {
                    NodeKind::Text(t) => t.text.as_str().is_empty(),
                    _ => false,
                },
                None => false,
            };
            if empty {
                let _ = doc.remove_node(id);
                sel.remove(id);
            }
        },
        None => {},
    }
}

/// Handle a frame's keystrokes for the text node being edited: apply them,
/// then, if one of them ends the edit, finish it. Says whether the text
/// was edited.
pub fn process_events(
    doc: &mut Document,
    editing: &mut Option<NodeId>,
    sel: &mut Selection,
    events: &Vec<TextEvent>,
) -> (changed: bool)
    ensures
        match *old(editing) {
            None => {
                &&& !changed
                &&& doc_unchanged(*old(doc), *final(doc))
                &&& *final(editing) == None::<NodeId>
                &&& final(sel)@ == old(sel)@
            },
            Some(id) => {
                let t1 = typed(text_of(*old(doc), id), events@);
                let removed = any_end(events@) && is_text_node(*old(doc), id) && t1.len() == 0;
                &&& changed == (is_text_node(*old(doc), id) && any_edit(events@))
                &&& *final(editing) == (if any_end(events@) { None } else { Some(id) })
                &&& removed ==> node_removed(*old(doc), *final(doc), id)
                    && final(sel)@ == old(sel)@.remove(id)
                &&& !removed && changed ==> text_replaced(*old(doc), *final(doc), id, t1)
                    && final(sel)@ == old(sel)@
                &&& !removed && !changed ==> doc_unchanged(*old(doc), *final(doc))
                    && final(sel)@ == old(sel)@
            },
        },
        old(doc).wf() ==> final(doc).wf(),
{
    let id = match *editing {
        Some(id) => id,
        None => return false,
    };
    let ghost d0 = *doc;
    let changed = apply_text_events(doc, id, events);
    let mut finishing = false;
    let mut i: usize = 0;
    while i < events.len()
        invariant
            i <= events@.len(),
            finishing == any_end(events@.take(i as int)),
        decreases events@.len() - i,
    {
        proof {
            let t0 = events@.take(i as int);
            let t1 = events@.take(i + 1);
            if any_end(t0) {
                let k = choose|k: int| 0 <= k < i && ends(#[trigger] t0[k]);
                assert(t1[k] == t0[k]);
            }
            if ends(events@[i as int]) {
                assert(t1[i as int] == events@[i as int]);
            }
            if any_end(t1) && !ends(events@[i as int]) {
                let k = choose|k: int| 0 <= k < i + 1 && ends(#[trigger] t1[k]);
                assert(t0[k] == t1[k]);
            }
        }
        match &events[i] {
            TextEvent::Enter { shift } => {
                if !*shift {
                    finishing = true;
                }
            },
            TextEvent::Escape => {
                finishing = true;
            },
            _ => {},
        }
        i += 1;
    }
    assert(events@.take(events@.len() as int) =~= events@);
    if finishing {
        let ghost d1 = *doc;
        finish_text(doc, editing, sel);
        proof {
            if changed {
                assert(is_text_node(d1, id));
                assert(text_of(d1, id) == typed(text_of(d0, id), events@));
                if text_of(d1, id).len() == 0 {
                    assert(d1.node_map().remove(id) =~= d0.node_map().remove(id));
                }
            } else {
                if is_text_node(d0, id) {
                    assert(!any_edit(events@));
                    lemma_typed_no_edit(text_of(d0, id), events@);
                }
            }
        }
    }
    changed
}

/// Keystrokes that do not edit leave the text as it is.
proof fn lemma_typed_no_edit(s: Seq<char>, evs: Seq<TextEvent>)
    requires
        !any_edit(evs),
    ensures
        typed(s, evs) == s,
    decreases evs.len(),
{
    if evs.len() > 0 {
        assert(!any_edit(evs.drop_last())) by {
            if any_edit(evs.drop_last()) {
                let k = choose|k: int| 0 <= k < evs.len() - 1 && edits(#[trigger] evs.drop_last()[k]);
                assert(evs[k] == evs.drop_last()[k]);
            }
        }
        lemma_typed_no_edit(s, evs.drop_last());
        assert(!edits(evs[evs.len() - 1]));
    }
}

/// Re-enter editing on an existing text node: it becomes the selection.
pub fn focus_text(editing: &mut Option<NodeId>, sel: &mut Selection, id: NodeId)
    ensures
        *final(editing) == Some(id),
        final(sel)@ == set![id],
{
    *editing = Some(id);
    sel.clear();
    sel.insert(id);
    assert(sel@ =~= set![id]);
}

/// The empty text node a Text-tool click creates at `position`: 24-unit
/// proportional text in the default stroke colour (black if there is none).
pub open spec fn new_text_node(n: Node, position: Vec2, defaults: DrawDefaults) -> bool {
    &&& n.name@ == "Text"@
    &&& n.kind is Text
    &&& n.kind->Text_0.position == position
    &&& n.kind->Text_0.text@.len() == 0
    &&& n.kind->Text_0.font_size == F64_24
    &&& n.kind->Text_0.family == FontFamily::Proportional
    &&& n.kind->Text_0.color == (if defaults.stroke is Some {
        defaults.stroke->0
    } else {
        Color { r: F32_ZERO, g: F32_ZERO, b: F32_ZERO, a: F32_ONE }
    })
    &&& n.kind->Text_0.style.opacity == F32_ONE
    &&& n.kind->Text_0.width is None
}

/// The command a Text-tool click on empty canvas pushes ("Add Text").
pub fn text_command(position: Vec2, defaults: DrawDefaults, layer: LayerId) -> (c: AddNodeCmd)
    ensures
        c.target_layer() == layer,
        c.inserted_seq().len() == 0,
        c.label_seq() == "Add Text"@,
        c.pending_seq().len() == 1,
        new_text_node(c.pending_seq()[0], position, defaults),
{
    let color = match defaults.stroke {
        Some(c) => c,
        None => Color::black(),
    };
    let t = TextNode {
        position,
        text: String::new(),
        font_size: F64_24,
        family: FontFamily::Proportional,
        color,
        style: Style::default(),
        width: None,
    };
    let node = Node::text(String::from_str("Text"), t);
    AddNodeCmd::new(layer, node, String::from_str("Add Text"))
}

/// The command that places an image ("Place Image"); the caller centres
/// it, which takes floating-point arithmetic.
pub fn image_command(position: Vec2, size: Vec2, image: ImageData, layer: LayerId) -> (c: AddNodeCmd)
    ensures
        c.target_layer() == layer,
        c.inserted_seq().len() == 0,
        c.label_seq() == "Place Image"@,
        c.pending_seq().len() == 1,
        c.pending_seq()[0].name@ == "Image"@,
        c.pending_seq()[0].kind is Image,
        c.pending_seq()[0].kind->Image_0.position == position,
        c.pending_seq()[0].kind->Image_0.size == size,
        c.pending_seq()[0].kind->Image_0.image == image,
        c.pending_seq()[0].kind->Image_0.style.opacity == F32_ONE,
{
    let node = Node::image(String::from_str("Image"), ImageNode { position, size, style: Style::default(), image });
    AddNodeCmd::new(layer, node, String::from_str("Place Image"))
}

/// Add a normal layer named "Layer N" (N one more than the number of
/// layers held) on top of all others.
pub fn add_numbered_layer(doc: &mut Document) -> (id: LayerId)
    requires
        old(doc).layer_map().dom().finite(),
        old(doc).layer_room(1),
    ensures
        !old(doc).layer_map().dom().contains(id),
        final(doc).layer_map().dom() == old(doc).layer_map().dom().insert(id),
        forall|l: LayerId| l != id && #[trigger] old(doc).layer_map().dom().contains(l)
            ==> final(doc).layer_map()[l] == old(doc).layer_map()[l],
        final(doc).layer_map()[id].name@ == "Layer "@ + decimal(old(doc).layer_map().len() + 1),
        final(doc).layer_map()[id].visible,
        !final(doc).layer_map()[id].locked,
        final(doc).layer_map()[id].opacity == F32_ONE,
        final(doc).layer_map()[id].blend == BlendMode::Normal,
        final(doc).layer_map()[id].kind == LayerKind::Normal,
        final(doc).layer_map()[id].nodes@.len() == 0,
        final(doc).layers@ == seq![id] + old(doc).layers@,
        final(doc).node_map() == old(doc).node_map(),
        final(doc).same_meta(old(doc)),
        old(doc).wf() ==> final(doc).wf(),
{
    let n = doc.layer_count();
    let name = numbered("Layer ", n + 1);
    let layer = Layer::new(name);
    let id = doc.add_layer(layer);
    id
}

/// Add a reference layer named "Reference" on top of all others.
pub fn add_reference_layer(doc: &mut Document) -> (id: LayerId)
    requires
        old(doc).layer_map().dom().finite(),
        old(doc).layer_room(1),
    ensures
        !old(doc).layer_map().dom().contains(id),
        final(doc).layer_map().dom() == old(doc).layer_map().dom().insert(id),
        forall|l: LayerId| l != id && #[trigger] old(doc).layer_map().dom().contains(l)
            ==> final(doc).layer_map()[l] == old(doc).layer_map()[l],
        final(doc).layer_map()[id].name@ == "Reference"@,
        final(doc).layer_map()[id].visible,
        final(doc).layer_map()[id].locked,
        final(doc).layer_map()[id].opacity == F32_HALF,
        final(doc).layer_map()[id].blend == BlendMode::Multiply,
        final(doc).layer_map()[id].kind == (LayerKind::Reference { dimmed: true }),
        final(doc).layer_map()[id].nodes@.len() == 0,
        final(doc).layers@ == seq![id] + old(doc).layers@,
        final(doc).node_map() == old(doc).node_map(),
        final(doc).same_meta(old(doc)),
        old(doc).wf() ==> final(doc).wf(),
{
    doc.add_layer(Layer::reference(String::from_str("Reference")))
}

/// Delete the active layer and the nodes it lists, unless it is the only
/// layer left; the topmost layer then becomes active and the selection
/// keeps only nodes that still exist. Says whether a layer was deleted.
pub fn delete_active_layer(doc: &mut Document, active: &mut LayerId, sel: &mut Selection) -> (done: bool)
    ensures
        done == (old(doc).layers@.len() > 1),
        !done ==> doc_unchanged(*old(doc), *final(doc)) && *final(active) == *old(active)
            && final(sel)@ == old(sel)@,
        done ==> {
            &&& final(doc).layer_map() == old(doc).layer_map().remove(*old(active))
            &&& final(doc).node_map() == (if old(doc).layer_map().dom().contains(*old(active)) {
                old(doc).node_map().remove_keys(old(doc).layer_map()[*old(active)].nodes@.to_set())
            } else {
                old(doc).node_map()
            })
            &&& final(doc).layers@ == (if old(doc).layer_map().dom().contains(*old(active)) {
                seq_without(old(doc).layers@, *old(active))
            } else {
                old(doc).layers@
            })
            &&& final(doc).same_meta(old(doc))
            &&& *final(active) == (if final(doc).layers@.len() > 0 { final(doc).layers@[0] } else { *old(active) })
            &&& final(sel)@ == old(sel)@.filter(|n: NodeId| final(doc).node_map().dom().contains(n))
        },
        old(doc).wf() ==> final(doc).wf(),
{
    if doc.layers.len() <= 1 {
        return false;
    }
    let _ = doc.remove_layer(*active);
    if doc.layers.len() > 0 {
        *active = doc.layers[0];
    }
    sel.retain_present(doc);
    true
}

/// The name of a new artboard: "Artboard N", N one more than the number
/// of artboards.
pub fn artboard_name(doc: &Document) -> (s: String)
    requires
        doc.artboards@.len() < usize::MAX,
    ensures
        s@ == "Artboard "@ + decimal(doc.artboards@.len() + 1),
{
    numbered("Artboard ", doc.artboards.len() + 1)
}

/// The layer to make active in a freshly opened document: its topmost
/// layer, or a new "Layer 1" when it has none.
pub fn first_layer_or_new(doc: &mut Document) -> (id: LayerId)
    requires
        old(doc).layer_map().dom().finite(),
        old(doc).layer_room(1),
    ensures
        old(doc).layers@.len() > 0 ==> id == old(doc).layers@[0] && doc_unchanged(*old(doc), *final(doc)),
        old(doc).layers@.len() == 0 ==> {
            &&& !old(doc).layer_map().dom().contains(id)
            &&& final(doc).layer_map().dom() == old(doc).layer_map().dom().insert(id)
            &&& final(doc).layer_map()[id].name@ == "Layer 1"@
            &&& final(doc).layer_map()[id].nodes@.len() == 0
            &&& final(doc).layers@ == seq![id]
            &&& final(doc).node_map() == old(doc).node_map()
        },
        old(doc).wf() ==> final(doc).wf(),
{
    if doc.layers.len() > 0 {
        doc.layers[0]
    } else {
        let id = doc.add_layer(Layer::new(String::from_str("Layer 1")));
        assert(doc.layers@ =~= seq![id]);
        id
    }
}

/// The window title: an asterisk when there are unsaved changes, then the
/// file name (or the document title when the document has no file), then
/// " — Illuminator".
pub fn window_title(file_name: Option<&str>, title: &str, dirty: bool) -> (s: String)
    ensures
        s@ == (if dirty { "*"@ } else { ""@ }) + (match file_name {
            Some(f) => f@,
            None => title@,
        }) + " — Illuminator"@,
{
    proof {
        reveal_strlit("");
        reveal_strlit("*");
    }
    let mut s = if dirty { String::from_str("*") } else { String::new() };
    assert(s@ == (if dirty { "*"@ } else { ""@ }));
    match file_name {
        Some(f) => s.append(f),
        None => s.append(title),
    }
    s.append(" — Illuminator");
    s
}

/// The Edit menu entry for undo or redo: the verb, then the label of the
/// command it would act on, if any.
pub fn history_entry(verb: &str, label: Option<&str>) -> (s: String)
    ensures
        s@ == match label {
            Some(l) => verb@ + " "@ + l@,
            None => verb@,
        },
{
    let mut s = String::from_str(verb);
    match label {
        Some(l) => {
            s.append(" ");
            s.append(l);
        },
        None => {},
    }
    s
}


/// The node Outline Stroke applies to: the selection's only node, when it
/// is a path.
pub fn outline_target(doc: &Document, sel: &Selection) -> (r: Option<NodeId>)
    ensures
        r matches Some(id) ==> sel@ == set![id] && doc.node_map().dom().contains(id)
            && doc.node_map()[id].kind is Path,
        r is None ==> !(exists|id: NodeId| sel@ == set![id] && doc.node_map().dom().contains(id)
            && #[trigger] doc.node_map()[id].kind is Path),
{
    if sel.len() != 1 {
        proof {
            assert forall|id: NodeId| sel@ != set![id] by {
                if sel@ == set![id] {
                    assert(set![id].len() == 1);
                }
            }
        }
        return None;
    }
    let v = sel.to_vec();
    proof {
        v@.unique_seq_to_set();
    }
    let id = v[0];
    proof {
        assert(v@.to_set() =~= set![id]) by {
            assert forall|y: NodeId| v@.to_set().contains(y) <==> y == id by {
                if v@.contains(y) {
                    let j = choose|j: int| 0 <= j < v@.len() && v@[j] == y;
                    assert(j == 0);
                }
                assert(v@[0] == id);
            }
        }
        assert forall|x: NodeId| sel@ == set![x] implies x == id by {
            assert(set![x].contains(x));
        }
    }
    match doc.node(id) {
        Some(node) => match &node.kind {
            NodeKind::Path(_) => Some(id),
            _ => None,
        },
        None => None,
    }
}

} // verus!
