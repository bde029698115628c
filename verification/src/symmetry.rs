//! Mirror copies of drawn nodes.
//!
//! Reflecting about the y axis negates x coordinates; reflecting about the x
//! axis negates y coordinates. Negating an `f64` only flips its sign bit, so
//! paths and text reflect exactly. An image keeps its top-left corner on the
//! top-left, so a reflected image starts at `-(position + size)`: that sum
//! is floating-point arithmetic, and the caller hands it in as `image_flip`.

use vstd::prelude::*;
use crate::deep_copy::{same_image_data, same_style};
use crate::doc::{Node, NodeKind};
use crate::path::{Anchor, Path, PathNode};
use crate::image::ImageNode;
use crate::style::{f64_neg, neg_f64, Vec2};
use crate::text::TextNode;
use crate::tools::SymmetryMode;

verus! {

/// `v` with x negated when `x` and y negated when `y`.
pub open spec fn flip(v: Vec2, x: bool, y: bool) -> Vec2 {
    Vec2 {
        x: if x { f64_neg(v.x) } else { v.x },
        y: if y { f64_neg(v.y) } else { v.y },
    }
}

/// An anchor reflected: its position and both handles flipped.
pub open spec fn reflect_anchor(a: Anchor, x: bool, y: bool) -> Anchor {
    Anchor {
        pos: flip(a.pos, x, y),
        in_handle: flip(a.in_handle, x, y),
        out_handle: flip(a.out_handle, x, y),
        smooth: a.smooth,
    }
}

/// The top-left corner of a reflected image at `p`, given `image_flip`.
pub open spec fn image_corner(p: Vec2, image_flip: Vec2, x: bool, y: bool) -> Vec2 {
    Vec2 {
        x: if x { image_flip.x } else { p.x },
        y: if y { image_flip.y } else { p.y },
    }
}

/// `b` is `a` reflected: a path's anchors, a text's position, an image's
/// corner; everything else agrees.
pub open spec fn reflected_kind(a: NodeKind, b: NodeKind, x: bool, y: bool, image_flip: Vec2) -> bool {
    match a {
        NodeKind::Path(p) => {
            &&& b is Path
            &&& b->Path_0.transform == p.transform
            &&& same_style(p.style, b->Path_0.style)
            &&& b->Path_0.path.closed == p.path.closed
            &&& b->Path_0.path.anchors@ == p.path.anchors@.map_values(|q: Anchor| reflect_anchor(q, x, y))
        },
        NodeKind::Image(i) => {
            &&& b is Image
            &&& b->Image_0.position == image_corner(i.position, image_flip, x, y)
            &&& b->Image_0.size == i.size
            &&& same_style(i.style, b->Image_0.style)
            &&& same_image_data(i.image, b->Image_0.image)
        },
        NodeKind::Text(t) => {
            &&& b is Text
            &&& b->Text_0.position == flip(t.position, x, y)
            &&& b->Text_0.text@ == t.text@
            &&& b->Text_0.font_size == t.font_size
            &&& b->Text_0.family == t.family
            &&& b->Text_0.color == t.color
            &&& same_style(t.style, b->Text_0.style)
            &&& b->Text_0.width == t.width
        },
    }
}

/// `v` flipped on the chosen axes.
pub fn flip_vec(v: Vec2, x: bool, y: bool) -> (r: Vec2)
    ensures
        r == flip(v, x, y),
{
    Vec2 {
        x: if x { neg_f64(v.x) } else { v.x },
        y: if y { neg_f64(v.y) } else { v.y },
    }
}

fn reflect_anchors(v: &Vec<Anchor>, x: bool, y: bool) -> (r: Vec<Anchor>)
    ensures
        r@ == v@.map_values(|q: Anchor| reflect_anchor(q, x, y)),
{
    let mut r: Vec<Anchor> = Vec::new();
    let mut i: usize = 0;
    while i < v.len()
        invariant
            i <= v@.len(),
            r@ == v@.take(i as int).map_values(|q: Anchor| reflect_anchor(q, x, y)),
        decreases v@.len() - i,
    {
        let a = v[i];
        r.push(Anchor {
            pos: flip_vec(a.pos, x, y),
            in_handle: flip_vec(a.in_handle, x, y),
            out_handle: flip_vec(a.out_handle, x, y),
            smooth: a.smooth,
        });
        assert(v@.take(i + 1) =~= v@.take(i as int).push(a));
        assert(r@ =~= v@.take(i + 1).map_values(|q: Anchor| reflect_anchor(q, x, y)));
        i += 1;
    }
    assert(v@.take(v@.len() as int) =~= v@);
    r
}

/// A copy of `node` reflected on the chosen axes; `image_flip` is used only
/// for an image (see the module documentation).
pub fn reflected(node: &Node, x: bool, y: bool, image_flip: Vec2) -> (r: Node)
    ensures
        r.name@ == node.name@,
        reflected_kind(node.kind, r.kind, x, y, image_flip),
{
    let kind = match &node.kind {
        NodeKind::Path(p) => NodeKind::Path(PathNode {
            transform: p.transform,
            style: p.style.duplicate(),
            path: Path { anchors: reflect_anchors(&p.path.anchors, x, y), closed: p.path.closed },
        }),
        NodeKind::Image(i) => NodeKind::Image(ImageNode {
            position: Vec2 {
                x: if x { image_flip.x } else { i.position.x },
                y: if y { image_flip.y } else { i.position.y },
            },
            size: i.size,
            style: i.style.duplicate(),
            image: i.image.duplicate(),
        }),
        NodeKind::Text(t) => NodeKind::Text(TextNode {
            position: flip_vec(t.position, x, y),
            text: t.text.clone(),
            font_size: t.font_size,
            family: t.family,
            color: t.color,
            style: t.style.duplicate(),
            width: t.width,
        }),
    };
    Node { name: node.name.clone(), kind }
}

/// Reflect `node` in place on the chosen axes.
pub fn reflect_node(node: &mut Node, x: bool, y: bool, image_flip: Vec2)
    ensures
        final(node).name@ == old(node).name@,
        reflected_kind(old(node).kind, final(node).kind, x, y, image_flip),
{
    let r = reflected(node, x, y, image_flip);
    *node = r;
}

/// The mirror copies of `node` for `mode`, in the order of `mode.copies()`:
/// each reflected as its copy says and named with its suffix.
pub fn mirror_node(node: &Node, mode: SymmetryMode, image_flip: Vec2) -> (v: Vec<Node>)
    ensures
        v@.len() == mode.spec_copies().len(),
        forall|i: int| 0 <= i < v@.len() ==> {
            &&& #[trigger] v@[i].name@ == node.name@ + mode.spec_copies()[i].spec_suffix()
            &&& reflected_kind(node.kind, v@[i].kind, mode.spec_copies()[i].flip_x,
                mode.spec_copies()[i].flip_y, image_flip)
        },
{
    let copies = mode.copies();
    let mut v: Vec<Node> = Vec::new();
    let mut i: usize = 0;
    while i < copies.len()
        invariant
            i <= copies@.len(),
            copies@ == mode.spec_copies(),
            v@.len() == i,
            forall|j: int| 0 <= j < i ==> {
                &&& #[trigger] v@[j].name@ == node.name@ + copies@[j].spec_suffix()
                &&& reflected_kind(node.kind, v@[j].kind, copies@[j].flip_x, copies@[j].flip_y, image_flip)
            },
        decreases copies@.len() - i,
    {
        let c = copies[i];
        let mut copy = reflected(node, c.flip_x, c.flip_y, image_flip);
        copy.name = c.name_for(node.name.as_str());
        v.push(copy);
        i += 1;
    }
    v
}

/// Reflecting a path or a text twice on the same axes gives back its
/// geometry exactly (negation only flips the sign bit).
pub proof fn law_reflect_twice(a: NodeKind, b: NodeKind, c: NodeKind, x: bool, y: bool, f1: Vec2, f2: Vec2)
    requires
        !(a is Image),
        reflected_kind(a, b, x, y, f1),
        reflected_kind(b, c, x, y, f2),
    ensures
        match a {
            NodeKind::Path(p) => c->Path_0.path.anchors@ == p.path.anchors@,
            NodeKind::Text(t) => c->Text_0.position == t.position,
            NodeKind::Image(_) => true,
        },
{
    assert forall|v: u64| f64_neg(f64_neg(v)) == v by {}
    match a {
        NodeKind::Path(p) => {
            let s = p.path.anchors@;
            let r = c->Path_0.path.anchors@;
            assert(r =~= s);
        },
        _ => {},
    }
}

} // verus!
