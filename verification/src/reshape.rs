//! Undoable edits that set a node's geometry to recorded values: resizing
//! an image and scaling a path. Both are previewed live on the document by
//! the tool and recorded when the drag ends.

use vstd::prelude::*;
use crate::arena::{LayerId, NodeId};
use crate::command::{law_push_undo_redo, redo_repeats_apply, same_document, Command, CommandStack};
use crate::doc::{Document, Node, NodeKind};
use crate::image::ImageNode;
use crate::path::{Anchor, PathNode};
use crate::style::Vec2;

verus! {

/// `b` is the image node `a` placed at `position` with `size`.
pub open spec fn image_placed(a: Node, b: Node, position: Vec2, size: Vec2) -> bool {
    &&& a.kind is Image
    &&& b == Node {
        kind: NodeKind::Image(ImageNode { position, size, ..a.kind->Image_0 }),
        ..a
    }
}

/// `b` is the path node `a` with its anchors replaced by `anchors`.
pub open spec fn path_reshaped(a: Node, b: Node, anchors: Seq<Anchor>) -> bool {
    &&& a.kind is Path
    &&& b.name == a.name
    &&& b.kind is Path
    &&& b.kind->Path_0.transform == a.kind->Path_0.transform
    &&& b.kind->Path_0.style == a.kind->Path_0.style
    &&& b.kind->Path_0.path.closed == a.kind->Path_0.path.closed
    &&& b.kind->Path_0.path.anchors@ == anchors
}

/// `d1` is `d0` with node `id` replaced by a node for which `changed`
/// holds; when `id` is not a node of the right kind, `d1` is `d0`.
pub open spec fn node_set(d0: Document, d1: Document, id: NodeId, present: bool, new_node: Node) -> bool {
    &&& present ==> d1.node_map() == d0.node_map().insert(id, new_node)
    &&& !present ==> d1.node_map() == d0.node_map()
    &&& d1.layer_map() == d0.layer_map()
    &&& d1.layers@ == d0.layers@
    &&& d1.same_meta(&d0)
}

pub(crate) proof fn lemma_replace_keeps_wf(d0: Document, d1: Document, id: NodeId, n: Node)
    requires
        d0.wf(),
        d0.node_map().dom().contains(id),
        d1.node_map() == d0.node_map().insert(id, n),
        d1.layer_map() == d0.layer_map(),
        d1.layers@ == d0.layers@,
    ensures
        d1.wf(),
{
    assert(d1.node_map().dom() =~= d0.node_map().dom());
    assert forall|l: LayerId, m: NodeId| #[trigger] d1.owns(l, m) implies d1.node_map().dom().contains(m) by {
        assert(d0.owns(l, m));
    }
    assert forall|l1: LayerId, l2: LayerId, m: NodeId| #[trigger] d1.owns(l1, m) && #[trigger] d1.owns(l2, m)
        implies l1 == l2 by {
        assert(d0.owns(l1, m) && d0.owns(l2, m));
    }
}

/// Move node `id`, if it is an image, to `position` with `size`.
fn place_image(doc: &mut Document, id: NodeId, position: Vec2, size: Vec2)
    ensures
        node_set(*old(doc), *final(doc), id,
            old(doc).node_map().dom().contains(id) && old(doc).node_map()[id].kind is Image,
            Node {
                kind: NodeKind::Image(ImageNode { position, size, ..old(doc).node_map()[id].kind->Image_0 }),
                ..old(doc).node_map()[id]
            }),
        old(doc).wf() ==> final(doc).wf(),
{
    let is_image = match doc.node(id) {
        Some(n) => match &n.kind {
            NodeKind::Image(_) => true,
            _ => false,
        },
        None => false,
    };
    if is_image {
        let node = doc.node_mut(id);
        match &mut node.kind {
            NodeKind::Image(img) => {
                img.position = position;
                img.size = size;
            },
            _ => {},
        }
        proof {
            if old(doc).wf() {
                lemma_replace_keeps_wf(*old(doc), *doc, id, doc.node_map()[id]);
            }
        }
    }
}

/// Set the anchors of node `id`, if it is a path, to a copy of `anchors`.
fn set_anchors(doc: &mut Document, id: NodeId, anchors: &Vec<Anchor>) -> (ghost_node: Ghost<Node>)
    ensures
        node_set(*old(doc), *final(doc), id,
            old(doc).node_map().dom().contains(id) && old(doc).node_map()[id].kind is Path,
            ghost_node@),
        old(doc).node_map().dom().contains(id) && old(doc).node_map()[id].kind is Path
            ==> path_reshaped(old(doc).node_map()[id], ghost_node@, anchors@),
        old(doc).wf() ==> final(doc).wf(),
{
    let is_path = match doc.node(id) {
        Some(n) => match &n.kind {
            NodeKind::Path(_) => true,
            _ => false,
        },
        None => false,
    };
    if is_path {
        let node = doc.node_mut(id);
        match &mut node.kind {
            NodeKind::Path(p) => {
                p.path.anchors = anchors.clone();
            },
            _ => {},
        }
        proof {
            if old(doc).wf() {
                lemma_replace_keeps_wf(*old(doc), *doc, id, doc.node_map()[id]);
            }
        }
        Ghost(doc.node_map()[id])
    } else {
        Ghost(doc.node_map()[id])
    }
}

/// Resize an image: apply places it at the new position and size, undo at
/// the old ones.
pub struct ResizeImageCmd {
    pub node_id: NodeId,
    pub from_position: Vec2,
    pub from_size: Vec2,
    pub to_position: Vec2,
    pub to_size: Vec2,
}

impl ResizeImageCmd {
    pub fn new(node_id: NodeId, from_position: Vec2, from_size: Vec2, to_position: Vec2, to_size: Vec2) -> (c: ResizeImageCmd)
        ensures
            c == (ResizeImageCmd { node_id, from_position, from_size, to_position, to_size }),
    {
        ResizeImageCmd { node_id, from_position, from_size, to_position, to_size }
    }

    /// Node `id` of `d` is an image.
    pub open spec fn targets_image(d: Document, id: NodeId) -> bool {
        d.node_map().dom().contains(id) && d.node_map()[id].kind is Image
    }
}

impl Command for ResizeImageCmd {
    open spec fn spec_label(&self) -> Seq<char> {
        "Resize Image"@
    }

    /// When the target is an image it takes the new position and size;
    /// otherwise nothing changes.
    open spec fn apply_post(c0: ResizeImageCmd, d0: Document, c1: ResizeImageCmd, d1: Document) -> bool {
        &&& c1 == c0
        &&& node_set(d0, d1, c0.node_id, ResizeImageCmd::targets_image(d0, c0.node_id),
            Node {
                kind: NodeKind::Image(ImageNode {
                    position: c0.to_position,
                    size: c0.to_size,
                    ..d0.node_map()[c0.node_id].kind->Image_0
                }),
                ..d0.node_map()[c0.node_id]
            })
    }

    /// When the target is an image it takes the old position and size;
    /// otherwise nothing changes.
    open spec fn undo_post(c0: ResizeImageCmd, d0: Document, c1: ResizeImageCmd, d1: Document) -> bool {
        &&& c1 == c0
        &&& node_set(d0, d1, c0.node_id, ResizeImageCmd::targets_image(d0, c0.node_id),
            Node {
                kind: NodeKind::Image(ImageNode {
                    position: c0.from_position,
                    size: c0.from_size,
                    ..d0.node_map()[c0.node_id].kind->Image_0
                }),
                ..d0.node_map()[c0.node_id]
            })
    }

    open spec fn apply_ready(&self, doc: &Document) -> bool {
        true
    }

    open spec fn undo_ready(&self, doc: &Document) -> bool {
        true
    }

    fn apply(&mut self, doc: &mut Document) {
        place_image(doc, self.node_id, self.to_position, self.to_size);
    }

    fn undo(&mut self, doc: &mut Document) {
        place_image(doc, self.node_id, self.from_position, self.from_size);
    }

    fn label(&self) -> (s: &str) {
        "Resize Image"
    }
}

/// Scale a path: apply gives it the new anchors, undo the old ones.
pub struct ResizePathCmd {
    pub node_id: NodeId,
    pub from_anchors: Vec<Anchor>,
    pub to_anchors: Vec<Anchor>,
}

impl ResizePathCmd {
    pub fn new(node_id: NodeId, from_anchors: Vec<Anchor>, to_anchors: Vec<Anchor>) -> (c: ResizePathCmd)
        ensures
            c.node_id == node_id,
            c.from_anchors@ == from_anchors@,
            c.to_anchors@ == to_anchors@,
    {
        ResizePathCmd { node_id, from_anchors, to_anchors }
    }

    /// Node `id` of `d` is a path.
    pub open spec fn targets_path(d: Document, id: NodeId) -> bool {
        d.node_map().dom().contains(id) && d.node_map()[id].kind is Path
    }

    /// `d1` is `d0` with the anchors of path `id` set to `anchors` (and `d0`
    /// itself when `id` is not a path).
    pub open spec fn reshaped(d0: Document, d1: Document, id: NodeId, anchors: Seq<Anchor>) -> bool {
        &&& d1.layer_map() == d0.layer_map()
        &&& d1.layers@ == d0.layers@
        &&& d1.same_meta(&d0)
        &&& if ResizePathCmd::targets_path(d0, id) {
            &&& d1.node_map().dom() == d0.node_map().dom()
            &&& path_reshaped(d0.node_map()[id], d1.node_map()[id], anchors)
            &&& forall|n: NodeId| n != id && #[trigger] d0.node_map().dom().contains(n)
                ==> d1.node_map()[n] == d0.node_map()[n]
        } else {
            d1.node_map() == d0.node_map()
        }
    }
}

impl Command for ResizePathCmd {
    open spec fn spec_label(&self) -> Seq<char> {
        "Scale Shape"@
    }

    open spec fn apply_post(c0: ResizePathCmd, d0: Document, c1: ResizePathCmd, d1: Document) -> bool {
        &&& c1 == c0
        &&& ResizePathCmd::reshaped(d0, d1, c0.node_id, c0.to_anchors@)
    }

    open spec fn undo_post(c0: ResizePathCmd, d0: Document, c1: ResizePathCmd, d1: Document) -> bool {
        &&& c1 == c0
        &&& ResizePathCmd::reshaped(d0, d1, c0.node_id, c0.from_anchors@)
    }

    open spec fn apply_ready(&self, doc: &Document) -> bool {
        true
    }

    open spec fn undo_ready(&self, doc: &Document) -> bool {
        true
    }

    fn apply(&mut self, doc: &mut Document) {
        let _ = set_anchors(doc, self.node_id, &self.to_anchors);
        proof {
            assert(doc.node_map().dom() =~= old(doc).node_map().dom());
        }
    }

    fn undo(&mut self, doc: &mut Document) {
        let _ = set_anchors(doc, self.node_id, &self.from_anchors);
        proof {
            assert(doc.node_map().dom() =~= old(doc).node_map().dom());
        }
    }

    fn label(&self) -> (s: &str) {
        "Scale Shape"
    }
}

/// Resizing an image whose placement is the command's old one, then
/// undoing, gives back the document exactly.
pub proof fn law_resize_image_then_undo(c0: ResizeImageCmd, d0: Document, c1: ResizeImageCmd, d1: Document, c2: ResizeImageCmd, d2: Document)
    requires
        ResizeImageCmd::targets_image(d0, c0.node_id),
        d0.node_map()[c0.node_id].kind->Image_0.position == c0.from_position,
        d0.node_map()[c0.node_id].kind->Image_0.size == c0.from_size,
        ResizeImageCmd::apply_post(c0, d0, c1, d1),
        ResizeImageCmd::undo_post(c1, d1, c2, d2),
    ensures
        d2.node_map() == d0.node_map(),
        d2.layer_map() == d0.layer_map(),
        d2.layers@ == d0.layers@,
        d2.same_meta(&d0),
{
    let id = c0.node_id;
    let n0 = d0.node_map()[id];
    assert(d2.node_map()[id] == n0);
    assert(d2.node_map() =~= d0.node_map());
}

/// Scaling a path whose anchors are the command's old ones, then undoing,
/// gives back the same anchors, and every other node unchanged.
pub proof fn law_resize_path_then_undo(c0: ResizePathCmd, d0: Document, c1: ResizePathCmd, d1: Document, c2: ResizePathCmd, d2: Document)
    requires
        ResizePathCmd::targets_path(d0, c0.node_id),
        d0.node_map()[c0.node_id].kind->Path_0.path.anchors@ == c0.from_anchors@,
        ResizePathCmd::apply_post(c0, d0, c1, d1),
        ResizePathCmd::undo_post(c1, d1, c2, d2),
    ensures
        d2.node_map().dom() == d0.node_map().dom(),
        path_reshaped(d0.node_map()[c0.node_id], d2.node_map()[c0.node_id], c0.from_anchors@),
        forall|n: NodeId| n != c0.node_id && #[trigger] d0.node_map().dom().contains(n)
            ==> d2.node_map()[n] == d0.node_map()[n],
        d2.layer_map() == d0.layer_map(),
        d2.layers@ == d0.layers@,
{
}


/// Redoing a resize after undoing it repeats the resize exactly, whatever
/// the image's placement was before: the document ends as the first apply
/// left it.
pub proof fn law_resize_image_redo_repeats()
    ensures
        redo_repeats_apply::<ResizeImageCmd>(),
{
    assert forall|c0: ResizeImageCmd, d0: Document, c1: ResizeImageCmd, d1: Document, c2: ResizeImageCmd,
        d2: Document, c3: ResizeImageCmd, d3: Document|
        ResizeImageCmd::apply_post(c0, d0, c1, d1) && ResizeImageCmd::undo_post(c1, d1, c2, d2)
            && ResizeImageCmd::apply_post(c2, d2, c3, d3)
        implies c3 == c1 && same_document(d3, d1) by {
        let id = c0.node_id;
        if ResizeImageCmd::targets_image(d0, id) {
            assert(d1.node_map().dom().contains(id));
            assert(ResizeImageCmd::targets_image(d1, id));
            assert(ResizeImageCmd::targets_image(d2, id));
            assert(d3.node_map()[id] == d1.node_map()[id]);
            assert(d3.node_map() =~= d1.node_map());
        } else {
            assert(d1.node_map() == d0.node_map());
            assert(!ResizeImageCmd::targets_image(d1, id));
            assert(!ResizeImageCmd::targets_image(d2, id));
        }
    }
}

/// Push a resize, undo it, redo it: the document is as the push left it,
/// the resize is back on top of the undo history and nothing can be redone.
pub proof fn law_push_undo_redo_resize_image(
    s0: CommandStack<ResizeImageCmd>,
    d0: Document,
    cmd: ResizeImageCmd,
    s1: CommandStack<ResizeImageCmd>,
    d1: Document,
    undone: bool,
    s2: CommandStack<ResizeImageCmd>,
    d2: Document,
    redone: bool,
    s3: CommandStack<ResizeImageCmd>,
    d3: Document,
)
    requires
        CommandStack::pushed(s0, cmd.spec_label(), s1),
        ResizeImageCmd::apply_post(cmd, d0, s1.undo_seq().last(), d1),
        CommandStack::undone(s1, undone, s2),
        undone ==> ResizeImageCmd::undo_post(s1.undo_seq().last(), d1, s2.redo_seq().last(), d2),
        CommandStack::redone(s2, redone, s3),
        redone ==> ResizeImageCmd::apply_post(s2.redo_seq().last(), d2, s3.undo_seq().last(), d3),
    ensures
        undone,
        redone,
        same_document(d3, d1),
        s3.undo_seq() == s1.undo_seq(),
        s3.redo_seq().len() == 0,
{
    law_resize_image_redo_repeats();
    law_push_undo_redo(s0, d0, cmd, s1, d1, undone, s2, d2, redone, s3, d3);
}

/// Push a path scaling, undo it, redo it: every node other than the path is
/// as the push left it, the path has the anchors, name, style, transform and
/// closure the push gave it, the layers and metadata are unchanged, and the
/// scaling is back on top of the undo history with nothing left to redo.
pub proof fn law_push_undo_redo_resize_path(
    s0: CommandStack<ResizePathCmd>,
    d0: Document,
    cmd: ResizePathCmd,
    s1: CommandStack<ResizePathCmd>,
    d1: Document,
    undone: bool,
    s2: CommandStack<ResizePathCmd>,
    d2: Document,
    redone: bool,
    s3: CommandStack<ResizePathCmd>,
    d3: Document,
)
    requires
        CommandStack::pushed(s0, cmd.spec_label(), s1),
        ResizePathCmd::apply_post(cmd, d0, s1.undo_seq().last(), d1),
        CommandStack::undone(s1, undone, s2),
        undone ==> ResizePathCmd::undo_post(s1.undo_seq().last(), d1, s2.redo_seq().last(), d2),
        CommandStack::redone(s2, redone, s3),
        redone ==> ResizePathCmd::apply_post(s2.redo_seq().last(), d2, s3.undo_seq().last(), d3),
    ensures
        undone,
        redone,
        d3.node_map().dom() == d1.node_map().dom(),
        forall|n: NodeId| n != cmd.node_id && #[trigger] d1.node_map().dom().contains(n)
            ==> d3.node_map()[n] == d1.node_map()[n],
        ResizePathCmd::targets_path(d1, cmd.node_id) ==> path_reshaped(
            d1.node_map()[cmd.node_id],
            d3.node_map()[cmd.node_id],
            d1.node_map()[cmd.node_id].kind->Path_0.path.anchors@,
        ),
        !ResizePathCmd::targets_path(d1, cmd.node_id) ==> d3.node_map() == d1.node_map(),
        d3.layer_map() == d1.layer_map(),
        d3.layers@ == d1.layers@,
        d3.same_meta(&d1),
        s3.undo_seq() == s1.undo_seq(),
        s3.redo_seq().len() == 0,
{
    let id = cmd.node_id;
    let c1 = s1.undo_seq().last();
    let c2 = s2.redo_seq().last();
    let c3 = s3.undo_seq().last();
    assert(c1 == cmd && c2 == cmd && c3 == cmd);
    if ResizePathCmd::targets_path(d0, id) {
        assert(ResizePathCmd::targets_path(d1, id));
        assert(ResizePathCmd::targets_path(d2, id));
    } else {
        assert(!ResizePathCmd::targets_path(d1, id));
        assert(!ResizePathCmd::targets_path(d2, id));
    }
    assert(s3.undo_seq() =~= s1.undo_seq()) by {
        let u = s1.undo_seq();
        assert(u =~= u.drop_last().push(u.last()));
        assert(s3.undo_seq() =~= s2.undo_seq().push(c3));
    }
}

} // verus!
