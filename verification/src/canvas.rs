//! The canvas's undo history and what its gestures commit to it: finishing
//! a pen path, a Text-tool click, and the end of a drag. Each gesture
//! commits at most one undo step.

use vstd::prelude::*;
use crate::arena::{LayerId, NodeId};
use crate::command::{Command, CommandStack};
use crate::doc::{Artboard, Document, NodeKind};
use crate::editing::{artboard_name, focus_text, new_text_node, select_last_of_layer, text_command};
use crate::interaction::{end_drag, Interaction};
use crate::path::{Anchor, Path};
use crate::strings::decimal;
use crate::edits::{AddNodeCmd, DeleteNodesCmd};
use crate::pen::{
    drawn_path, drawn_style, finish, pen_active, pen_anchors, shape_command, spec_shape_name, with_copies, DrawDefaults,
    PenState,
};
use crate::reshape::{ResizeImageCmd, ResizePathCmd};
use crate::selection::Selection;
use crate::style::Vec2;
use crate::tools::SymmetryMode;

verus! {

/// A command of the canvas history: one of the library's edits, or an edit
/// of the caller's own (`E`), such as a floating-point move.
pub enum CanvasCommand<E> {
    Add(AddNodeCmd),
    Delete(DeleteNodesCmd),
    ResizeImage(ResizeImageCmd),
    ResizePath(ResizePathCmd),
    Other(E),
}

impl<E: Command> Command for CanvasCommand<E> {
    open spec fn spec_label(&self) -> Seq<char> {
        match self {
            CanvasCommand::Add(c) => c.spec_label(),
            CanvasCommand::Delete(c) => c.spec_label(),
            CanvasCommand::ResizeImage(c) => c.spec_label(),
            CanvasCommand::ResizePath(c) => c.spec_label(),
            CanvasCommand::Other(c) => c.spec_label(),
        }
    }

    /// As the wrapped command's apply says; the variant is kept.
    open spec fn apply_post(c0: Self, d0: Document, c1: Self, d1: Document) -> bool {
        match (c0, c1) {
            (CanvasCommand::Add(a), CanvasCommand::Add(b)) => AddNodeCmd::apply_post(a, d0, b, d1),
            (CanvasCommand::Delete(a), CanvasCommand::Delete(b)) => DeleteNodesCmd::apply_post(a, d0, b, d1),
            (CanvasCommand::ResizeImage(a), CanvasCommand::ResizeImage(b)) => ResizeImageCmd::apply_post(a, d0, b, d1),
            (CanvasCommand::ResizePath(a), CanvasCommand::ResizePath(b)) => ResizePathCmd::apply_post(a, d0, b, d1),
            (CanvasCommand::Other(a), CanvasCommand::Other(b)) => E::apply_post(a, d0, b, d1),
            _ => false,
        }
    }

    /// As the wrapped command's undo says; the variant is kept.
    open spec fn undo_post(c0: Self, d0: Document, c1: Self, d1: Document) -> bool {
        match (c0, c1) {
            (CanvasCommand::Add(a), CanvasCommand::Add(b)) => AddNodeCmd::undo_post(a, d0, b, d1),
            (CanvasCommand::Delete(a), CanvasCommand::Delete(b)) => DeleteNodesCmd::undo_post(a, d0, b, d1),
            (CanvasCommand::ResizeImage(a), CanvasCommand::ResizeImage(b)) => ResizeImageCmd::undo_post(a, d0, b, d1),
            (CanvasCommand::ResizePath(a), CanvasCommand::ResizePath(b)) => ResizePathCmd::undo_post(a, d0, b, d1),
            (CanvasCommand::Other(a), CanvasCommand::Other(b)) => E::undo_post(a, d0, b, d1),
            _ => false,
        }
    }

    open spec fn apply_ready(&self, doc: &Document) -> bool {
        match self {
            CanvasCommand::Add(c) => c.apply_ready(doc),
            CanvasCommand::Delete(c) => c.apply_ready(doc),
            CanvasCommand::ResizeImage(c) => c.apply_ready(doc),
            CanvasCommand::ResizePath(c) => c.apply_ready(doc),
            CanvasCommand::Other(c) => c.apply_ready(doc),
        }
    }

    open spec fn undo_ready(&self, doc: &Document) -> bool {
        match self {
            CanvasCommand::Add(c) => c.undo_ready(doc),
            CanvasCommand::Delete(c) => c.undo_ready(doc),
            CanvasCommand::ResizeImage(c) => c.undo_ready(doc),
            CanvasCommand::ResizePath(c) => c.undo_ready(doc),
            CanvasCommand::Other(c) => c.undo_ready(doc),
        }
    }

    fn apply(&mut self, doc: &mut Document) {
        match self {
            CanvasCommand::Add(c) => c.apply(doc),
            CanvasCommand::Delete(c) => c.apply(doc),
            CanvasCommand::ResizeImage(c) => c.apply(doc),
            CanvasCommand::ResizePath(c) => c.apply(doc),
            CanvasCommand::Other(c) => c.apply(doc),
        }
    }

    fn undo(&mut self, doc: &mut Document) {
        match self {
            CanvasCommand::Add(c) => c.undo(doc),
            CanvasCommand::Delete(c) => c.undo(doc),
            CanvasCommand::ResizeImage(c) => c.undo(doc),
            CanvasCommand::ResizePath(c) => c.undo(doc),
            CanvasCommand::Other(c) => c.undo(doc),
        }
    }

    fn label(&self) -> (s: &str) {
        match self {
            CanvasCommand::Add(c) => c.label(),
            CanvasCommand::Delete(c) => c.label(),
            CanvasCommand::ResizeImage(c) => c.label(),
            CanvasCommand::ResizePath(c) => c.label(),
            CanvasCommand::Other(c) => c.label(),
        }
    }
}

/// The topmost node of layer `l` of `d`, if it has one.
pub open spec fn top_of_layer(d: Document, l: LayerId) -> Option<NodeId> {
    if d.layer_map().dom().contains(l) && d.layer_map()[l].nodes@.len() > 0 {
        Some(d.layer_map()[l].nodes@.last())
    } else {
        None
    }
}

/// `h1` is `h0` with the add `cmd` pushed and applied to `d0`, giving `d1`.
pub open spec fn add_pushed<E: Command>(
    h0: CommandStack<CanvasCommand<E>>,
    d0: Document,
    cmd: AddNodeCmd,
    h1: CommandStack<CanvasCommand<E>>,
    d1: Document,
) -> bool {
    &&& CommandStack::pushed(h0, cmd.spec_label(), h1)
    &&& h1.undo_seq().last() is Add
    &&& AddNodeCmd::applied(cmd, d0, h1.undo_seq().last()->Add_0, d1)
}

/// The selection after an add: the layer's topmost node alone, or as it
/// was when the layer has none.
pub open spec fn selected_top(d: Document, l: LayerId, s0: Set<NodeId>, s1: Set<NodeId>) -> bool {
    match top_of_layer(d, l) {
        Some(id) => s1 == set![id],
        None => s1 == s0,
    }
}

/// Push the add `cmd` as one undo step and select the topmost node of its
/// layer, which it names.
fn commit_add<E: Command>(
    history: &mut CommandStack<CanvasCommand<E>>,
    doc: &mut Document,
    sel: &mut Selection,
    cmd: AddNodeCmd,
    layer: LayerId,
) -> (r: Option<NodeId>)
    requires
        cmd.target_layer() == layer,
        old(doc).node_map().dom().finite(),
        old(doc).node_room(cmd.pending_seq().len()),
    ensures
        add_pushed(*old(history), *old(doc), cmd, *final(history), *final(doc)),
        r == top_of_layer(*final(doc), layer),
        selected_top(*final(doc), layer, old(sel)@, final(sel)@),
        old(doc).wf() ==> final(doc).wf(),
{
    history.push(CanvasCommand::Add(cmd), doc);
    select_last_of_layer(doc, layer, sel)
}

/// Finish the path in progress (Enter or a click on its first anchor:
/// closed; otherwise open) and commit it: with at least two anchors, one
/// undo step adds the path and its mirror copies to `layer`, and the
/// layer's topmost node becomes the selection. With fewer, the path is
/// dropped and nothing else changes. The result says whether a step was
/// committed.
pub fn pen_commit<E: Command>(
    pen: &mut Option<PenState>,
    closed: bool,
    defaults: DrawDefaults,
    layer: LayerId,
    symmetry: SymmetryMode,
    doc: &mut Document,
    sel: &mut Selection,
    history: &mut CommandStack<CanvasCommand<E>>,
) -> (committed: bool)
    requires
        old(doc).node_map().dom().finite(),
        old(doc).node_room(4),
    ensures
        !pen_active(*final(pen)),
        committed == (pen_anchors(*old(pen)).len() >= 2),
        committed ==> exists|cmd: AddNodeCmd| {
            &&& cmd.target_layer() == layer
            &&& cmd.inserted_seq().len() == 0
            &&& cmd.label_seq() == (if closed { "Add Closed Path"@ } else { "Add Path"@ })
            &&& drawn_path(cmd.pending_seq()[0], if closed { "Shape"@ } else { "Path"@ },
                drawn_style(defaults, closed), pen_anchors(*old(pen)), closed)
            &&& with_copies(cmd.pending_seq(), symmetry)
            &&& add_pushed(*old(history), *old(doc), cmd, *final(history), *final(doc))
        },
        committed ==> selected_top(*final(doc), layer, old(sel)@, final(sel)@),
        !committed ==> *final(doc) == *old(doc) && *final(history) == *old(history) && final(sel)@ == old(sel)@,
        old(doc).wf() ==> final(doc).wf(),
{
    match finish(pen, closed, defaults, layer, symmetry) {
        Some(cmd) => {
            let _ = commit_add(history, doc, sel, cmd, layer);
            true
        },
        None => false,
    }
}

/// A Text-tool click. On a text node (`hit`, found by the caller's hit
/// test) editing resumes there and it becomes the selection; the document
/// and the history are unchanged. Elsewhere one "Add Text" undo step puts
/// an empty text node at `position` on `layer`, and the layer's topmost
/// node is selected and edited.
pub fn text_click<E: Command>(
    hit: Option<NodeId>,
    position: Vec2,
    defaults: DrawDefaults,
    layer: LayerId,
    doc: &mut Document,
    sel: &mut Selection,
    editing: &mut Option<NodeId>,
    history: &mut CommandStack<CanvasCommand<E>>,
)
    requires
        old(doc).node_map().dom().finite(),
        old(doc).node_room(1),
    ensures
        hit matches Some(h) ==> {
            &&& *final(editing) == Some(h)
            &&& final(sel)@ == set![h]
            &&& *final(doc) == *old(doc)
            &&& *final(history) == *old(history)
        },
        hit is None ==> {
            &&& exists|cmd: AddNodeCmd| {
                &&& cmd.target_layer() == layer
                &&& cmd.inserted_seq().len() == 0
                &&& cmd.label_seq() == "Add Text"@
                &&& cmd.pending_seq().len() == 1
                &&& new_text_node(cmd.pending_seq()[0], position, defaults)
                &&& add_pushed(*old(history), *old(doc), cmd, *final(history), *final(doc))
            }
            &&& selected_top(*final(doc), layer, old(sel)@, final(sel)@)
            &&& *final(editing) == (match top_of_layer(*final(doc), layer) {
                Some(id) => Some(id),
                None => *old(editing),
            })
        },
        old(doc).wf() ==> final(doc).wf(),
{
    match hit {
        Some(h) => focus_text(editing, sel, h),
        None => {
            let cmd = text_command(position, defaults, layer);
            match commit_add(history, doc, sel, cmd, layer) {
                Some(id) => {
                    *editing = Some(id);
                },
                None => {},
            }
        },
    }
}

/// What the caller measured when a drag ended: the floating-point tests
/// come in as their outcomes. Fields that do not concern the drag that
/// ended are ignored.
pub struct DragEndFacts<E> {
    /// A drawn shape or artboard is large enough to keep (each side at
    /// least 0.5 units for a shape, 10 for an artboard).
    pub big_enough: bool,
    /// The outline of the drawn shape: a rectangle or an ellipse spanning
    /// the drag.
    pub shape: Path,
    /// The corners of the drawn artboard, lower first.
    pub min: Vec2,
    pub max: Vec2,
    /// The nodes that lie inside the marquee.
    pub marquee_hits: Vec<NodeId>,
    /// The dragged nodes, anchors or handle, or the resized node, ended up
    /// changed from where the drag started.
    pub changed: bool,
    /// The caller's undo step for a move of nodes or anchors, or for a
    /// handle edit; the document already shows it.
    pub edit: Option<E>,
}

/// Nothing changed: the document, the selection and the history are as
/// they were.
pub open spec fn untouched<E: Command>(
    d0: Document,
    d1: Document,
    s0: Set<NodeId>,
    s1: Set<NodeId>,
    h0: CommandStack<CanvasCommand<E>>,
    h1: CommandStack<CanvasCommand<E>>,
) -> bool {
    d1 == d0 && s1 == s0 && h1 == h0
}

/// `h1` is `h0` with `c` recorded as done (it is not applied again).
pub open spec fn recorded<E: Command>(h0: CommandStack<CanvasCommand<E>>, c: CanvasCommand<E>, h1: CommandStack<CanvasCommand<E>>) -> bool {
    &&& h1.undo_seq() == h0.undo_seq().push(c)
    &&& h1.redo_seq().len() == 0
}

/// `d1` is `d0` with one more artboard, named "Artboard N" (N the new
/// count), spanning `min` to `max`.
pub open spec fn artboard_added(d0: Document, d1: Document, min: Vec2, max: Vec2) -> bool {
    &&& d1.artboards@.len() == d0.artboards@.len() + 1
    &&& d1.artboards@.drop_last() == d0.artboards@
    &&& d1.artboards@.last().name@ == "Artboard "@ + decimal(d0.artboards@.len() + 1)
    &&& d1.artboards@.last().min == min
    &&& d1.artboards@.last().max == max
    &&& d1.node_map() == d0.node_map()
    &&& d1.layer_map() == d0.layer_map()
    &&& d1.layers@ == d0.layers@
    &&& d1.version == d0.version
    &&& d1.title@ == d0.title@
}

/// End a drag on the canvas and commit what it did, as one undo step at
/// most; the canvas is then idle. The result says whether the document or
/// the history changed.
/// - A drawn shape big enough to keep: one step adds it and its mirror
///   copies to `layer`, and the layer's topmost node is selected.
/// - A drawn artboard big enough to keep is added (no undo step).
/// - A marquee adds the nodes inside it to the selection.
/// - A move of nodes or anchors, or a handle edit, that changed something
///   records the caller's step, without applying it again.
/// - A resize that changed an image records a "Resize Image" step from the
///   old placement to the image's current one; one that changed a path
///   records a "Scale Shape" step from its old anchors to its current ones.
/// Anything else commits nothing.
pub fn drag_end<E: Command>(
    state: &mut Interaction,
    facts: DragEndFacts<E>,
    defaults: DrawDefaults,
    layer: LayerId,
    symmetry: SymmetryMode,
    doc: &mut Document,
    sel: &mut Selection,
    history: &mut CommandStack<CanvasCommand<E>>,
) -> (committed: bool)
    requires
        old(doc).node_map().dom().finite(),
        old(doc).node_room(4),
        old(doc).artboards@.len() + 1 < usize::MAX,
    ensures
        *final(state) == Interaction::Idle,
        match *old(state) {
            Interaction::DrawingShape { kind, .. } => if facts.big_enough {
                &&& committed
                &&& exists|cmd: AddNodeCmd| {
                    &&& cmd.target_layer() == layer
                    &&& cmd.inserted_seq().len() == 0
                    &&& cmd.label_seq() == "Add "@ + spec_shape_name(kind)
                    &&& drawn_path(cmd.pending_seq()[0], spec_shape_name(kind), drawn_style(defaults, true),
                        facts.shape.anchors@, facts.shape.closed)
                    &&& with_copies(cmd.pending_seq(), symmetry)
                    &&& add_pushed(*old(history), *old(doc), cmd, *final(history), *final(doc))
                }
                &&& selected_top(*final(doc), layer, old(sel)@, final(sel)@)
            } else {
                !committed && untouched(*old(doc), *final(doc), old(sel)@, final(sel)@, *old(history), *final(history))
            },
            Interaction::DrawingArtboard { .. } => if facts.big_enough {
                &&& committed
                &&& artboard_added(*old(doc), *final(doc), facts.min, facts.max)
                &&& final(sel)@ == old(sel)@
                &&& *final(history) == *old(history)
            } else {
                !committed && untouched(*old(doc), *final(doc), old(sel)@, final(sel)@, *old(history), *final(history))
            },
            Interaction::Marquee { .. } => {
                &&& !committed
                &&& final(sel)@ == old(sel)@.union(facts.marquee_hits@.to_set())
                &&& *final(doc) == *old(doc)
                &&& *final(history) == *old(history)
            },
            Interaction::MovingSelection { .. } | Interaction::MovingAnchors { .. } | Interaction::MovingHandle { .. } =>
                if facts.changed && facts.edit is Some {
                    &&& committed
                    &&& recorded(*old(history), CanvasCommand::Other(facts.edit->0), *final(history))
                    &&& *final(doc) == *old(doc)
                    &&& final(sel)@ == old(sel)@
                } else {
                    !committed && untouched(*old(doc), *final(doc), old(sel)@, final(sel)@, *old(history), *final(history))
                },
            Interaction::ResizingImage { node_id, original_position, original_size, original_anchors, .. } =>
                if facts.changed && old(doc).node_map().dom().contains(node_id)
                    && old(doc).node_map()[node_id].kind is Image {
                    &&& committed
                    &&& recorded(*old(history), CanvasCommand::ResizeImage(ResizeImageCmd {
                        node_id,
                        from_position: original_position,
                        from_size: original_size,
                        to_position: old(doc).node_map()[node_id].kind->Image_0.position,
                        to_size: old(doc).node_map()[node_id].kind->Image_0.size,
                    }), *final(history))
                    &&& *final(doc) == *old(doc)
                    &&& final(sel)@ == old(sel)@
                } else if facts.changed && old(doc).node_map().dom().contains(node_id)
                    && old(doc).node_map()[node_id].kind is Path && original_anchors is Some {
                    &&& committed
                    &&& final(history).undo_seq().drop_last() == old(history).undo_seq()
                    &&& final(history).undo_seq().len() == old(history).undo_seq().len() + 1
                    &&& final(history).redo_seq().len() == 0
                    &&& final(history).undo_seq().last() is ResizePath
                    &&& final(history).undo_seq().last()->ResizePath_0.node_id == node_id
                    &&& final(history).undo_seq().last()->ResizePath_0.from_anchors@ == original_anchors->0@
                    &&& final(history).undo_seq().last()->ResizePath_0.to_anchors@
                        == old(doc).node_map()[node_id].kind->Path_0.path.anchors@
                    &&& *final(doc) == *old(doc)
                    &&& final(sel)@ == old(sel)@
                } else {
                    !committed && untouched(*old(doc), *final(doc), old(sel)@, final(sel)@, *old(history), *final(history))
                },
            Interaction::Idle => !committed && untouched(*old(doc), *final(doc), old(sel)@, final(sel)@, *old(history), *final(history)),
        },
        old(doc).wf() ==> final(doc).wf(),
{
    let ended = end_drag(state);
    match ended {
        Interaction::DrawingShape { kind, .. } => {
            if facts.big_enough {
                let cmd = shape_command(kind, facts.shape, defaults, layer, symmetry);
                let _ = commit_add(history, doc, sel, cmd, layer);
                true
            } else {
                false
            }
        },
        Interaction::DrawingArtboard { .. } => {
            if facts.big_enough {
                let name = artboard_name(doc);
                let ghost d0 = *doc;
                doc.artboards.push(Artboard { name, min: facts.min, max: facts.max });
                proof {
                    assert(doc.artboards@.drop_last() =~= d0.artboards@);
                    assert(doc.layer_arena == d0.layer_arena);
                    assert(doc.node_arena == d0.node_arena);
                    assert(doc.layers == d0.layers);
                    if d0.wf() {
                        crate::doc::lemma_wf_same(&d0, &*doc);
                    }
                }
                true
            } else {
                false
            }
        },
        Interaction::Marquee { .. } => {
            let hits = facts.marquee_hits;
            let ghost s0 = sel@;
            let mut i: usize = 0;
            while i < hits.len()
                invariant
                    i <= hits@.len(),
                    sel@ == s0.union(hits@.take(i as int).to_set()),
                decreases hits@.len() - i,
            {
                proof {
                    assert(hits@.take(i + 1) =~= hits@.take(i as int).push(hits@[i as int]));
                    crate::seqs::lemma_push_to_set(hits@.take(i as int), hits@[i as int]);
                }
                sel.insert(hits[i]);
                proof {
                    assert(sel@ =~= s0.union(hits@.take(i + 1).to_set()));
                }
                i += 1;
            }
            proof {
                assert(hits@.take(hits@.len() as int) =~= hits@);
            }
            false
        },
        Interaction::MovingSelection { .. } | Interaction::MovingAnchors { .. } | Interaction::MovingHandle { .. } => {
            if facts.changed {
                match facts.edit {
                    Some(e) => {
                        history.record_applied(CanvasCommand::Other(e));
                        true
                    },
                    None => false,
                }
            } else {
                false
            }
        },
        Interaction::ResizingImage { node_id, original_position, original_size, original_anchors, .. } => {
            if !facts.changed {
                return false;
            }
            let step = match doc.node(node_id) {
                Some(node) => match &node.kind {
                    NodeKind::Image(img) => Some(CanvasCommand::ResizeImage(
                        ResizeImageCmd::new(node_id, original_position, original_size, img.position, img.size),
                    )),
                    NodeKind::Path(pn) => match original_anchors {
                        Some(from) => Some(CanvasCommand::ResizePath(
                            ResizePathCmd::new(node_id, from, copy_anchors(&pn.path.anchors)),
                        )),
                        None => None,
                    },
                    _ => None,
                },
                None => None,
            };
            match step {
                Some(c) => {
                    history.record_applied(c);
                    true
                },
                None => false,
            }
        },
        Interaction::Idle => false,
    }
}

/// A copy of `v`, element by element.
fn copy_anchors(v: &Vec<Anchor>) -> (r: Vec<Anchor>)
    ensures
        r@ == v@,
{
    let mut r: Vec<Anchor> = Vec::new();
    let mut i: usize = 0;
    while i < v.len()
        invariant
            i <= v@.len(),
            r@ == v@.take(i as int),
        decreases v@.len() - i,
    {
        r.push(v[i]);
        assert(v@.take(i + 1) =~= v@.take(i as int).push(v@[i as int]));
        i += 1;
    }
    assert(v@.take(v@.len() as int) =~= v@);
    r
}

} // verus!
