//! What a drag on the canvas is doing, and how a drag starts.
//!
//! Positions are `f64` values held as bits. The hit tests that a press
//! needs (is the cursor on a handle, an anchor, a node, a corner of the
//! selected node) and the bounds they use are floating-point work; the
//! caller does them and hands in their outcome as a [`Press`].

use vstd::prelude::*;
use crate::arena::NodeId;
use crate::doc::{Document, NodeKind};
use crate::editing::{direct_press_select, drag_handle, handle_dragged, press_select};
use crate::reshape::{lemma_replace_keeps_wf, path_reshaped};
use crate::path::Anchor;
use crate::selection::Selection;
use crate::style::{Vec2, F64_ZERO};
use crate::tools::{Corner, HandlePart, ShapeKind, ToolKind};

verus! {

/// What the user is doing on the canvas.
#[derive(Clone, Debug)]
pub enum Interaction {
    Idle,
    /// Drawing a rectangle or ellipse by dragging.
    DrawingShape { kind: ShapeKind, start_world: Vec2, current_world: Vec2 },
    /// Drawing an artboard by dragging.
    DrawingArtboard { start_world: Vec2, current_world: Vec2 },
    /// Selection rubber band.
    Marquee { start_screen: Vec2, current_screen: Vec2 },
    /// Dragging the selected nodes.
    MovingSelection { last_world: Vec2, accumulated: Vec2 },
    /// Dragging anchors of paths.
    MovingAnchors { items: Vec<(NodeId, usize)>, last_world: Vec2, accumulated: Vec2 },
    /// Resizing one image or path by a corner; the opposite corner
    /// (`anchor_world`) stays put. `aspect` is width / height (an `f64`).
    ResizingImage {
        node_id: NodeId,
        corner: Corner,
        anchor_world: Vec2,
        original_position: Vec2,
        original_size: Vec2,
        aspect: u64,
        original_anchors: Option<Vec<Anchor>>,
    },
    /// Dragging one handle of an anchor; the starting handles and smooth
    /// flag are kept for the undo step.
    MovingHandle {
        node_id: NodeId,
        anchor_idx: usize,
        which: HandlePart,
        start_in: Vec2,
        start_out: Vec2,
        was_smooth: bool,
        break_symmetry: bool,
    },
}

/// A corner of the single selected image or path under the cursor, with
/// that node's bounds, their size and its aspect (width / height, as the
/// node kind measures it).
#[derive(Clone, Copy, Debug)]
pub struct CornerHit {
    pub node_id: NodeId,
    pub corner: Corner,
    pub min: Vec2,
    pub max: Vec2,
    pub size: Vec2,
    pub aspect: u64,
}

/// A press that starts a drag, with the outcome of the hit tests.
#[derive(Clone, Copy, Debug)]
pub struct Press {
    /// The cursor in world space, and snapped.
    pub world: Vec2,
    pub snapped: Vec2,
    /// The cursor on screen.
    pub screen: Vec2,
    pub shift: bool,
    pub alt: bool,
    /// A handle end of a selected path under the cursor.
    pub handle: Option<(NodeId, usize, HandlePart)>,
    /// An anchor of a selected path under the cursor.
    pub anchor: Option<(NodeId, usize)>,
    /// A corner of the single selected image or path under the cursor.
    pub corner: Option<CornerHit>,
    /// The topmost pickable node under the cursor.
    pub node: Option<NodeId>,
}

/// The zero vector.
pub open spec fn zero() -> Vec2 {
    Vec2 { x: F64_ZERO, y: F64_ZERO }
}

/// Anchor `idx` of node `id` of `d`, when that is a path with such an anchor.
pub open spec fn anchor_of(d: Document, id: NodeId, idx: usize) -> Option<Anchor> {
    if d.node_map().dom().contains(id) && d.node_map()[id].kind is Path
        && idx < d.node_map()[id].kind->Path_0.path.anchors@.len() {
        Some(d.node_map()[id].kind->Path_0.path.anchors@[idx as int])
    } else {
        None
    }
}

fn find_anchor(doc: &Document, id: NodeId, idx: usize) -> (r: Option<Anchor>)
    ensures
        r == anchor_of(*doc, id, idx),
{
    match doc.node(id) {
        Some(node) => match &node.kind {
            NodeKind::Path(p) => {
                if idx < p.path.anchors.len() {
                    Some(p.path.anchors[idx])
                } else {
                    None
                }
            },
            _ => None,
        },
        None => None,
    }
}

/// The drag a Direct Select press starts on a handle or an anchor, if any.
pub open spec fn direct_drag(press: Press, d: Document) -> Option<Interaction> {
    match press.handle {
        Some((id, idx, which)) => Some(Interaction::MovingHandle {
            node_id: id,
            anchor_idx: idx,
            which,
            start_in: if anchor_of(d, id, idx) is Some { anchor_of(d, id, idx)->0.in_handle } else { zero() },
            start_out: if anchor_of(d, id, idx) is Some { anchor_of(d, id, idx)->0.out_handle } else { zero() },
            was_smooth: anchor_of(d, id, idx) is Some && anchor_of(d, id, idx)->0.smooth,
            break_symmetry: press.alt,
        }),
        None => None,
    }
}

/// `s1` is the interaction a Select-tool press on `hit.corner` starts:
/// an image keeps its placement as the starting one; a path its bounds and
/// a copy of its anchors.
pub open spec fn resizing_from(s1: Interaction, hit: CornerHit, d: Document) -> bool {
    let node = d.node_map()[hit.node_id];
    &&& s1 is ResizingImage
    &&& s1->ResizingImage_node_id == hit.node_id
    &&& s1->ResizingImage_corner == hit.corner
    &&& s1->ResizingImage_anchor_world == hit.corner.spec_opposite().spec_world_pos(hit.min, hit.max)
    &&& s1->ResizingImage_aspect == hit.aspect
    &&& node.kind is Image ==> {
        &&& s1->ResizingImage_original_position == node.kind->Image_0.position
        &&& s1->ResizingImage_original_size == node.kind->Image_0.size
        &&& s1->ResizingImage_original_anchors is None
    }
    &&& node.kind is Path ==> {
        &&& s1->ResizingImage_original_position == hit.min
        &&& s1->ResizingImage_original_size == hit.size
        &&& s1->ResizingImage_original_anchors is Some
        &&& s1->ResizingImage_original_anchors->0@ == node.kind->Path_0.path.anchors@
    }
}

/// `s` drags the anchor `item` from `world`.
pub open spec fn anchor_drag(s: Interaction, item: (NodeId, usize), world: Vec2) -> bool {
    &&& s is MovingAnchors
    &&& s->MovingAnchors_items@ == seq![item]
    &&& s->MovingAnchors_last_world == world
    &&& s->MovingAnchors_accumulated == zero()
}

/// The selected node under a corner hit is an image or a path.
pub open spec fn resizable(hit: Option<CornerHit>, d: Document) -> bool {
    &&& hit is Some
    &&& d.node_map().dom().contains(hit->0.node_id)
    &&& (d.node_map()[hit->0.node_id].kind is Image || d.node_map()[hit->0.node_id].kind is Path)
}

/// Start a drag with `tool`. Pen, Text and Hand drags are handled by their
/// own tools and change nothing here.
pub fn drag_start(tool: ToolKind, press: &Press, doc: &Document, sel: &mut Selection, state: &mut Interaction)
    ensures
        match tool {
            ToolKind::DirectSelect => {
                &&& press.handle is Some ==> *final(state) == direct_drag(*press, *doc)->0 && final(sel)@ == old(sel)@
                &&& press.handle is None && press.anchor is Some ==> {
                    &&& anchor_drag(*final(state), press.anchor->0, press.world)
                    &&& final(sel)@ == old(sel)@
                }
                &&& press.handle is None && press.anchor is None ==> {
                    &&& *final(state) == *old(state)
                    &&& final(sel)@ == match press.node {
                        Some(id) => if press.shift { old(sel)@.insert(id) } else { set![id] },
                        None => if press.shift { old(sel)@ } else { Set::empty() },
                    }
                }
            },
            ToolKind::Rectangle => {
                &&& *final(state) == (Interaction::DrawingShape { kind: ShapeKind::Rect, start_world: press.snapped, current_world: press.snapped })
                &&& final(sel)@ == old(sel)@
            },
            ToolKind::Ellipse => {
                &&& *final(state) == (Interaction::DrawingShape { kind: ShapeKind::Ellipse, start_world: press.snapped, current_world: press.snapped })
                &&& final(sel)@ == old(sel)@
            },
            ToolKind::Artboard => {
                &&& *final(state) == (Interaction::DrawingArtboard { start_world: press.snapped, current_world: press.snapped })
                &&& final(sel)@ == old(sel)@
            },
            ToolKind::Select => {
                &&& resizable(press.corner, *doc) ==> resizing_from(*final(state), press.corner->0, *doc)
                    && final(sel)@ == old(sel)@
                &&& !resizable(press.corner, *doc) ==> {
                    &&& *final(state) == (if press.node is Some {
                        Interaction::MovingSelection { last_world: press.world, accumulated: zero() }
                    } else {
                        Interaction::Marquee { start_screen: press.screen, current_screen: press.screen }
                    })
                    &&& final(sel)@ == match press.node {
                        Some(id) => if old(sel)@.contains(id) {
                            old(sel)@
                        } else if press.shift {
                            old(sel)@.insert(id)
                        } else {
                            set![id]
                        },
                        None => if press.shift { old(sel)@ } else { Set::empty() },
                    }
                }
            },
            _ => *final(state) == *old(state) && final(sel)@ == old(sel)@,
        },
{
    match tool {
        ToolKind::DirectSelect => {
            match press.handle {
                Some((id, idx, which)) => {
                    let (start_in, start_out, was_smooth) = match find_anchor(doc, id, idx) {
                        Some(a) => (a.in_handle, a.out_handle, a.smooth),
                        None => (Vec2::zero(), Vec2::zero(), false),
                    };
                    *state = Interaction::MovingHandle {
                        node_id: id,
                        anchor_idx: idx,
                        which,
                        start_in,
                        start_out,
                        was_smooth,
                        break_symmetry: press.alt,
                    };
                },
                None => match press.anchor {
                    Some(item) => {
                        let mut items: Vec<(NodeId, usize)> = Vec::new();
                        items.push(item);
                        assert(items@ =~= seq![item]);
                        *state = Interaction::MovingAnchors { items, last_world: press.world, accumulated: Vec2::zero() };
                    },
                    None => {
                        direct_press_select(sel, press.node, press.shift);
                    },
                },
            }
        },
        ToolKind::Rectangle => {
            *state = Interaction::DrawingShape { kind: ShapeKind::Rect, start_world: press.snapped, current_world: press.snapped };
        },
        ToolKind::Ellipse => {
            *state = Interaction::DrawingShape { kind: ShapeKind::Ellipse, start_world: press.snapped, current_world: press.snapped };
        },
        ToolKind::Artboard => {
            *state = Interaction::DrawingArtboard { start_world: press.snapped, current_world: press.snapped };
        },
        ToolKind::Select => {
            if let Some(hit) = press.corner {
                if let Some(node) = doc.node(hit.node_id) {
                    let anchor_world = hit.corner.opposite().world_pos(hit.min, hit.max);
                    match &node.kind {
                        NodeKind::Image(img) => {
                            *state = Interaction::ResizingImage {
                                node_id: hit.node_id,
                                corner: hit.corner,
                                anchor_world,
                                original_position: img.position,
                                original_size: img.size,
                                aspect: hit.aspect,
                                original_anchors: None,
                            };
                            return;
                        },
                        NodeKind::Path(pn) => {
                            *state = Interaction::ResizingImage {
                                node_id: hit.node_id,
                                corner: hit.corner,
                                anchor_world,
                                original_position: hit.min,
                                original_size: hit.size,
                                aspect: hit.aspect,
                                original_anchors: Some(pn.path.anchors.clone()),
                            };
                            return;
                        },
                        _ => {},
                    }
                }
            }
            if press_select(sel, press.node, press.shift) {
                *state = Interaction::MovingSelection { last_world: press.world, accumulated: Vec2::zero() };
            } else {
                *state = Interaction::Marquee { start_screen: press.screen, current_screen: press.screen };
            }
        },
        _ => {},
    }
}

/// Follow the cursor while drawing a shape or an artboard (`snapped`, in
/// world space) or dragging a marquee (`screen`); other drags are left as
/// they are.
pub fn track(state: &mut Interaction, snapped: Vec2, screen: Vec2)
    ensures
        match *old(state) {
            Interaction::DrawingShape { kind, start_world, .. } =>
                *final(state) == (Interaction::DrawingShape { kind, start_world, current_world: snapped }),
            Interaction::DrawingArtboard { start_world, .. } =>
                *final(state) == (Interaction::DrawingArtboard { start_world, current_world: snapped }),
            Interaction::Marquee { start_screen, .. } =>
                *final(state) == (Interaction::Marquee { start_screen, current_screen: screen }),
            _ => *final(state) == *old(state),
        },
{
    match state {
        Interaction::DrawingShape { current_world, .. } => {
            *current_world = snapped;
        },
        Interaction::DrawingArtboard { current_world, .. } => {
            *current_world = snapped;
        },
        Interaction::Marquee { current_screen, .. } => {
            *current_screen = screen;
        },
        _ => {},
    }
}

/// End the drag: the interaction is handed back and the canvas is idle.
pub fn end_drag(state: &mut Interaction) -> (r: Interaction)
    ensures
        r == *old(state),
        *final(state) == Interaction::Idle,
{
    let mut r = Interaction::Idle;
    std::mem::swap(&mut r, state);
    r
}


/// While a handle is dragged: the anchor takes the handle at `v` (the
/// cursor relative to the anchor), by the rule of `handle_dragged`. Other
/// drags, and a target that is no longer a path with that anchor, leave
/// the document as it is.
pub fn drag_handle_to(doc: &mut Document, state: &Interaction, v: Vec2)
    ensures
        match *state {
            Interaction::MovingHandle { node_id, anchor_idx, which, was_smooth, break_symmetry, .. } =>
                if anchor_of(*old(doc), node_id, anchor_idx) is Some {
                    &&& final(doc).node_map().dom() == old(doc).node_map().dom()
                    &&& path_reshaped(old(doc).node_map()[node_id], final(doc).node_map()[node_id],
                        old(doc).node_map()[node_id].kind->Path_0.path.anchors@.update(
                            anchor_idx as int,
                            handle_dragged(anchor_of(*old(doc), node_id, anchor_idx)->0, which, v, was_smooth, break_symmetry),
                        ))
                    &&& forall|n: NodeId| n != node_id && #[trigger] old(doc).node_map().dom().contains(n)
                        ==> final(doc).node_map()[n] == old(doc).node_map()[n]
                    &&& final(doc).layer_map() == old(doc).layer_map()
                    &&& final(doc).layers@ == old(doc).layers@
                    &&& final(doc).same_meta(old(doc))
                } else {
                    *final(doc) == *old(doc)
                },
            _ => *final(doc) == *old(doc),
        },
        old(doc).wf() ==> final(doc).wf(),
{
    match state {
        Interaction::MovingHandle { node_id, anchor_idx, which, was_smooth, break_symmetry, .. } => {
            match find_anchor(doc, *node_id, *anchor_idx) {
                Some(a) => {
                    let moved = drag_handle(a, *which, v, *was_smooth, *break_symmetry);
                    let node = doc.node_mut(*node_id);
                    match &mut node.kind {
                        NodeKind::Path(p) => {
                            p.path.anchors.set(*anchor_idx, moved);
                        },
                        _ => {},
                    }
                    proof {
                        assert(doc.node_map().dom() =~= old(doc).node_map().dom());
                        if old(doc).wf() {
                            lemma_replace_keeps_wf(*old(doc), *doc, *node_id, doc.node_map()[*node_id]);
                        }
                    }
                },
                None => {},
            }
        },
        _ => {},
    }
}

} // verus!
