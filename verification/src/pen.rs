//! The pen tool and the other drawing tools' node builders.
//!
//! Authoring model: a click places a corner anchor; a click-drag places an
//! anchor whose out-handle follows the drag and whose in-handle mirrors it
//! (smooth); with Alt held the in-handle stays put and the anchor becomes a
//! corner. Enter finishes an open path, clicking the first anchor closes it,
//! Esc cancels, Backspace drops the last anchor.
//!
//! Screen-to-world conversion, snapping and the hit test on the first anchor
//! are floating-point work done by the caller, which hands in world positions.

use vstd::prelude::*;
use crate::arena::LayerId;
use crate::deep_copy::same_style;
use crate::doc::{Node, NodeKind};
use crate::edits::AddNodeCmd;
use crate::path::{Anchor, Path, PathNode};
use crate::style::{
    f64_neg, Affine2, Color, LineCap, LineJoin, Paint, Stroke, Style, Vec2, F32_0_85, F32_ONE,
    F32_ZERO, F64_ONE, F64_ZERO,
};
use crate::symmetry::{mirror_node, reflected_kind};
use crate::tools::{ShapeKind, SymmetryMode};

verus! {

/// The fill, stroke colour and stroke width (`f64`, as bits) new shapes get.
#[derive(Clone, Copy, Debug, PartialEq, Eq, Structural)]
pub struct DrawDefaults {
    pub fill: Option<Color>,
    pub stroke: Option<Color>,
    pub stroke_width: u64,
}

impl Default for DrawDefaults {
    /// Light grey (0.85) fill, black stroke one unit wide.
    fn default() -> (d: DrawDefaults)
        ensures
            d.fill == Some(Color { r: F32_0_85, g: F32_0_85, b: F32_0_85, a: F32_ONE }),
            d.stroke == Some(Color { r: F32_ZERO, g: F32_ZERO, b: F32_ZERO, a: F32_ONE }),
            d.stroke_width == F64_ONE,
    {
        DrawDefaults {
            fill: Some(Color::rgb(F32_0_85, F32_0_85, F32_0_85)),
            stroke: Some(Color::black()),
            stroke_width: F64_ONE,
        }
    }
}

/// The style a newly drawn shape gets: the default fill when `with_fill`,
/// the default stroke colour at the default width, fully opaque.
pub open spec fn drawn_style(d: DrawDefaults, with_fill: bool) -> Style {
    Style {
        fill: if with_fill && d.fill is Some { Some(Paint::Solid(d.fill->0)) } else { None },
        stroke: if d.stroke is Some {
            Some(Stroke {
                paint: Paint::Solid(d.stroke->0),
                width: d.stroke_width,
                cap: LineCap::Butt,
                join: LineJoin::Miter,
                dash: None,
            })
        } else {
            None
        },
        opacity: F32_ONE,
    }
}

pub fn drawn_style_of(d: DrawDefaults, with_fill: bool) -> (s: Style)
    ensures
        s == drawn_style(d, with_fill),
{
    let fill = match d.fill {
        Some(c) => if with_fill { Some(Paint::Solid(c)) } else { None },
        None => None,
    };
    let stroke = match d.stroke {
        Some(c) => Some(Stroke {
            paint: Paint::Solid(c),
            width: d.stroke_width,
            cap: LineCap::Butt,
            join: LineJoin::Miter,
            dash: None,
        }),
        None => None,
    };
    Style { fill, stroke, opacity: F32_ONE }
}

/// A drawn shape's style: filled with the default fill colour when it is
/// filled and there is one, stroked with the default stroke colour (never
/// the fill colour) and width when there is one, fully opaque.
pub proof fn law_drawn_style(d: DrawDefaults, with_fill: bool)
    ensures
        ({
            let st = drawn_style(d, with_fill);
            &&& d.stroke matches Some(c) ==> st.stroke matches Some(k) && k.paint == Paint::Solid(c)
                && k.width == d.stroke_width
            &&& d.stroke is None ==> st.stroke is None
            &&& (with_fill && d.fill is Some) ==> st.fill == Some(Paint::Solid(d.fill->0))
            &&& !(with_fill && d.fill is Some) ==> st.fill is None
            &&& st.opacity == F32_ONE
        }),
{
}

/// The identity transform.
pub open spec fn identity_transform() -> Affine2 {
    Affine2 {
        x_axis: Vec2 { x: F64_ONE, y: F64_ZERO },
        y_axis: Vec2 { x: F64_ZERO, y: F64_ONE },
        translation: Vec2 { x: F64_ZERO, y: F64_ZERO },
    }
}

/// `n` is a path node named `name` with the identity transform, `style`,
/// and the given anchors.
pub open spec fn drawn_path(n: Node, name: Seq<char>, style: Style, anchors: Seq<Anchor>, closed: bool) -> bool {
    &&& n.name@ == name
    &&& n.kind is Path
    &&& n.kind->Path_0.transform == identity_transform()
    &&& n.kind->Path_0.style == style
    &&& n.kind->Path_0.path.anchors@ == anchors
    &&& n.kind->Path_0.path.closed == closed
}

/// `pending` is `node` followed by its mirror copies for `mode`.
pub open spec fn with_copies(pending: Seq<Node>, mode: SymmetryMode) -> bool {
    &&& pending.len() == 1 + mode.spec_copies().len()
    &&& forall|i: int| 0 <= i < mode.spec_copies().len() ==> {
        &&& #[trigger] pending[i + 1].name@ == pending[0].name@ + mode.spec_copies()[i].spec_suffix()
        &&& reflected_kind(pending[0].kind, pending[i + 1].kind, mode.spec_copies()[i].flip_x,
            mode.spec_copies()[i].flip_y, Vec2 { x: F64_ZERO, y: F64_ZERO })
    }
}

/// A command adding a path node built from the parts, with its mirror copies.
fn drawn_path_command(
    name: &str,
    label: String,
    anchors: Vec<Anchor>,
    closed: bool,
    style: Style,
    layer: LayerId,
    symmetry: SymmetryMode,
) -> (c: AddNodeCmd)
    ensures
        c.target_layer() == layer,
        c.inserted_seq().len() == 0,
        c.label_seq() == label@,
        drawn_path(c.pending_seq()[0], name@, style, anchors@, closed),
        with_copies(c.pending_seq(), symmetry),
{
    let ghost anchors0 = anchors@;
    let ghost style0 = style;
    let path = Path { anchors, closed };
    let node = Node::path(String::from_str(name), PathNode {
        transform: Affine2::identity(),
        style,
        path,
    });
    let copies = mirror_node(&node, symmetry, Vec2::zero());
    let c = AddNodeCmd::with_mirrors(layer, node, copies, label);
    proof {
        let p = c.pending_seq();
        assert(p[0] == node);
        assert forall|i: int| 0 <= i < symmetry.spec_copies().len() implies {
            &&& #[trigger] p[i + 1].name@ == p[0].name@ + symmetry.spec_copies()[i].spec_suffix()
            &&& reflected_kind(p[0].kind, p[i + 1].kind, symmetry.spec_copies()[i].flip_x,
                symmetry.spec_copies()[i].flip_y, Vec2 { x: F64_ZERO, y: F64_ZERO })
        } by {
            assert(p[i + 1] == copies@[i]);
        }
    }
    c
}

/// An in-progress pen path.
#[derive(Clone, Debug)]
pub struct PenState {
    pub anchors: Vec<Anchor>,
    /// True while the mouse is held down placing the last anchor; its
    /// handles follow the drag.
    pub dragging: bool,
}

impl Default for PenState {
    fn default() -> (p: PenState)
        ensures
            p.anchors@.len() == 0,
            !p.dragging,
    {
        PenState { anchors: Vec::new(), dragging: false }
    }
}

impl PenState {
    pub fn is_empty(&self) -> (b: bool)
        ensures
            b == (self.anchors@.len() == 0),
    {
        self.anchors.len() == 0
    }
}

/// The anchors placed so far (none when no path is in progress).
pub open spec fn pen_anchors(pen: Option<PenState>) -> Seq<Anchor> {
    match pen {
        Some(p) => p.anchors@,
        None => seq![],
    }
}

/// A path is in progress.
pub open spec fn pen_active(pen: Option<PenState>) -> bool {
    pen is Some
}

/// The last anchor's handles follow a drag.
pub open spec fn pen_dragging(pen: Option<PenState>) -> bool {
    pen is Some && pen->0.dragging
}

/// Start a path if none is in progress and add a corner anchor at `pos`.
fn place_anchor(pen: &mut Option<PenState>, pos: Vec2, dragging: bool)
    ensures
        pen_active(*final(pen)),
        pen_anchors(*final(pen)) == pen_anchors(*old(pen)).push(Anchor {
            pos,
            in_handle: Vec2 { x: F64_ZERO, y: F64_ZERO },
            out_handle: Vec2 { x: F64_ZERO, y: F64_ZERO },
            smooth: false,
        }),
        pen_dragging(*final(pen)) == dragging,
{
    let mut state = match pen.take() {
        Some(s) => s,
        None => PenState::default(),
    };
    state.anchors.push(Anchor::corner(pos));
    state.dragging = dragging;
    *pen = Some(state);
}

/// A click (away from the first anchor) at world position `pos`: a corner anchor.
pub fn on_click(pen: &mut Option<PenState>, pos: Vec2)
    ensures
        pen_active(*final(pen)),
        pen_anchors(*final(pen)) == pen_anchors(*old(pen)).push(Anchor {
            pos,
            in_handle: Vec2 { x: F64_ZERO, y: F64_ZERO },
            out_handle: Vec2 { x: F64_ZERO, y: F64_ZERO },
            smooth: false,
        }),
        !pen_dragging(*final(pen)),
{
    place_anchor(pen, pos, false)
}

/// A drag starting (away from the first anchor) at `pos`: a corner anchor
/// whose handles the drag will set.
pub fn on_drag_start(pen: &mut Option<PenState>, pos: Vec2)
    ensures
        pen_active(*final(pen)),
        pen_anchors(*final(pen)) == pen_anchors(*old(pen)).push(Anchor {
            pos,
            in_handle: Vec2 { x: F64_ZERO, y: F64_ZERO },
            out_handle: Vec2 { x: F64_ZERO, y: F64_ZERO },
            smooth: false,
        }),
        pen_dragging(*final(pen)),
{
    place_anchor(pen, pos, true)
}

/// The last anchor after a drag to `out` (cursor minus anchor position):
/// the out-handle follows; without Alt the in-handle mirrors it and the
/// anchor is smooth, with Alt the in-handle stays and the anchor is a corner.
pub open spec fn dragged_anchor(a: Anchor, out: Vec2, alt: bool) -> Anchor {
    if alt {
        Anchor { out_handle: out, smooth: false, ..a }
    } else {
        Anchor {
            out_handle: out,
            in_handle: Vec2 { x: f64_neg(out.x), y: f64_neg(out.y) },
            smooth: true,
            ..a
        }
    }
}

/// While dragging, set the last anchor's handles from `out`, the drag
/// vector from the anchor to the cursor.
pub fn on_drag_update(pen: &mut Option<PenState>, out: Vec2, alt: bool)
    ensures
        match *old(pen) {
            Some(p) if p.dragging && p.anchors@.len() > 0 => {
                &&& pen_active(*final(pen))
                &&& pen_dragging(*final(pen))
                &&& pen_anchors(*final(pen)) == p.anchors@.update(
                    p.anchors@.len() - 1,
                    dragged_anchor(p.anchors@.last(), out, alt),
                )
            },
            _ => *final(pen) == *old(pen),
        },
{
    match pen {
        Some(p) => {
            if p.dragging && p.anchors.len() > 0 {
                let n = p.anchors.len() - 1;
                let last = p.anchors[n];
                let updated = if alt {
                    Anchor { out_handle: out, smooth: false, ..last }
                } else {
                    Anchor { out_handle: out, in_handle: out.neg(), smooth: true, ..last }
                };
                p.anchors.set(n, updated);
            }
        },
        None => {},
    }
}

/// The mouse was released: stop following the drag.
pub fn on_drag_end(pen: &mut Option<PenState>)
    ensures
        match *old(pen) {
            Some(p) => pen_active(*final(pen)) && pen_anchors(*final(pen)) == p.anchors@
                && !pen_dragging(*final(pen)),
            None => !pen_active(*final(pen)),
        },
{
    match pen {
        Some(p) => {
            p.dragging = false;
        },
        None => {},
    }
}

/// Throw away the path in progress.
pub fn cancel(pen: &mut Option<PenState>)
    ensures
        !pen_active(*final(pen)),
{
    *pen = None;
}

/// Drop the last anchor; when none is left the path is gone.
pub fn remove_last_anchor(pen: &mut Option<PenState>)
    ensures
        match *old(pen) {
            Some(p) => if p.anchors@.len() <= 1 {
                !pen_active(*final(pen))
            } else {
                &&& pen_active(*final(pen))
                &&& pen_anchors(*final(pen)) == p.anchors@.drop_last()
                &&& !pen_dragging(*final(pen))
            },
            None => !pen_active(*final(pen)),
        },
{
    match pen.take() {
        Some(p) => {
            let mut p = p;
            let _ = p.anchors.pop();
            p.dragging = false;
            if p.anchors.len() > 0 {
                *pen = Some(p);
            }
        },
        None => {},
    }
}

/// Finish the path in progress: closed ("Shape", filled) or open ("Path",
/// unfilled). A path needs at least two anchors; with fewer the path is
/// simply dropped. The command adds the node and its mirror copies to
/// `layer`; nothing is applied yet.
pub fn finish(
    pen: &mut Option<PenState>,
    closed: bool,
    defaults: DrawDefaults,
    layer: LayerId,
    symmetry: SymmetryMode,
) -> (r: Option<AddNodeCmd>)
    ensures
        !pen_active(*final(pen)),
        r is Some <==> pen_anchors(*old(pen)).len() >= 2,
        r matches Some(c) ==> {
            &&& c.target_layer() == layer
            &&& c.inserted_seq().len() == 0
            &&& c.label_seq() == (if closed { "Add Closed Path"@ } else { "Add Path"@ })
            &&& drawn_path(c.pending_seq()[0], if closed { "Shape"@ } else { "Path"@ },
                drawn_style(defaults, closed), pen_anchors(*old(pen)), closed)
            &&& with_copies(c.pending_seq(), symmetry)
        },
{
    let state = match pen.take() {
        Some(s) => s,
        None => return None,
    };
    if state.anchors.len() < 2 {
        return None;
    }
    let style = drawn_style_of(defaults, closed);
    let name = if closed { "Shape" } else { "Path" };
    let label = if closed { String::from_str("Add Closed Path") } else { String::from_str("Add Path") };
    Some(drawn_path_command(name, label, state.anchors, closed, style, layer, symmetry))
}

pub open spec fn spec_shape_name(kind: ShapeKind) -> Seq<char> {
    match kind {
        ShapeKind::Rect => "Rectangle"@,
        ShapeKind::Ellipse => "Ellipse"@,
    }
}

impl ShapeKind {
    /// The name a drawn shape of this kind gets.
    pub fn shape_name(self) -> (s: &'static str)
        ensures
            s@ == spec_shape_name(self),
    {
        match self {
            ShapeKind::Rect => "Rectangle",
            ShapeKind::Ellipse => "Ellipse",
        }
    }
}

/// The command that adds a rectangle or ellipse drawn by dragging, given
/// its outline (built by the caller), with the default fill and stroke and
/// its mirror copies.
pub fn shape_command(
    kind: ShapeKind,
    path: Path,
    defaults: DrawDefaults,
    layer: LayerId,
    symmetry: SymmetryMode,
) -> (c: AddNodeCmd)
    ensures
        c.target_layer() == layer,
        c.inserted_seq().len() == 0,
        c.label_seq() == "Add "@ + spec_shape_name(kind),
        drawn_path(c.pending_seq()[0], spec_shape_name(kind), drawn_style(defaults, true),
            path.anchors@, path.closed),
        with_copies(c.pending_seq(), symmetry),
{
    let name = kind.shape_name();
    let mut label = String::from_str("Add ");
    label.append(name);
    let style = drawn_style_of(defaults, true);
    drawn_path_command(name, label, path.anchors, path.closed, style, layer, symmetry)
}


/// A click that places an anchor, then Backspace, gives back the anchors
/// placed before (and no path at all if there were none).
pub proof fn law_click_then_backspace(p0: Option<PenState>, p1: Option<PenState>, p2: Option<PenState>, pos: Vec2)
    requires
        pen_active(p1),
        pen_anchors(p1) == pen_anchors(p0).push(Anchor {
            pos,
            in_handle: Vec2 { x: F64_ZERO, y: F64_ZERO },
            out_handle: Vec2 { x: F64_ZERO, y: F64_ZERO },
            smooth: false,
        }),
        match p1 {
            Some(p) => if p.anchors@.len() <= 1 {
                !pen_active(p2)
            } else {
                &&& pen_active(p2)
                &&& pen_anchors(p2) == p.anchors@.drop_last()
                &&& !pen_dragging(p2)
            },
            None => !pen_active(p2),
        },
    ensures
        pen_anchors(p2) == pen_anchors(p0),
        pen_active(p2) == (pen_anchors(p0).len() > 0),
{
    assert(pen_anchors(p0).push(Anchor {
        pos,
        in_handle: Vec2 { x: F64_ZERO, y: F64_ZERO },
        out_handle: Vec2 { x: F64_ZERO, y: F64_ZERO },
        smooth: false,
    }).drop_last() =~= pen_anchors(p0));
}

} // verus!
