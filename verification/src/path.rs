//! Cubic-bezier paths.

use vstd::prelude::*;
use crate::style::{default_fill, f64_neg, Affine2, Style, Vec2, F32_ONE, F64_ONE, F64_ZERO};

verus! {

/// A path anchor with cubic-bezier handles.
///
/// Handles are offsets relative to `pos` (the SVG/PostScript convention). A
/// zero handle means "corner": no curve on that side.
#[derive(Clone, Copy, Debug, PartialEq, Eq, Structural)]
pub struct Anchor {
    pub pos: Vec2,
    pub in_handle: Vec2,
    pub out_handle: Vec2,
    pub smooth: bool,
}

impl Anchor {
    /// An anchor with no handles.
    pub fn corner(pos: Vec2) -> (a: Anchor)
        ensures
            a.pos == pos,
            a.in_handle == (Vec2 { x: F64_ZERO, y: F64_ZERO }),
            a.out_handle == (Vec2 { x: F64_ZERO, y: F64_ZERO }),
            !a.smooth,
    {
        Anchor { pos, in_handle: Vec2::zero(), out_handle: Vec2::zero(), smooth: false }
    }

    /// A smooth anchor whose in-handle mirrors `out_handle`.
    pub fn smooth_with(pos: Vec2, out_handle: Vec2) -> (a: Anchor)
        ensures
            a.pos == pos,
            a.out_handle == out_handle,
            a.in_handle == (Vec2 { x: f64_neg(out_handle.x), y: f64_neg(out_handle.y) }),
            a.smooth,
    {
        Anchor { pos, in_handle: out_handle.neg(), out_handle, smooth: true }
    }
}

#[derive(Clone, Debug, PartialEq)]
pub struct Path {
    pub anchors: Vec<Anchor>,
    pub closed: bool,
}

impl Default for Path {
    fn default() -> (p: Path)
        ensures
            p.anchors@.len() == 0,
            !p.closed,
    {
        Path { anchors: Vec::new(), closed: false }
    }
}

impl Path {
    /// The closed axis-aligned rectangle with corners `min` and `max`, as
    /// four corner anchors: top-left, top-right, bottom-right, bottom-left.
    pub fn rectangle(min: Vec2, max: Vec2) -> (p: Path)
        ensures
            p.closed,
            p.anchors@ == seq![
                rect_corner(min.x, min.y),
                rect_corner(max.x, min.y),
                rect_corner(max.x, max.y),
                rect_corner(min.x, max.y),
            ],
    {
        let mut anchors = Vec::new();
        anchors.push(Anchor::corner(Vec2 { x: min.x, y: min.y }));
        anchors.push(Anchor::corner(Vec2 { x: max.x, y: min.y }));
        anchors.push(Anchor::corner(Vec2 { x: max.x, y: max.y }));
        anchors.push(Anchor::corner(Vec2 { x: min.x, y: max.y }));
        assert(anchors@ =~= seq![
            rect_corner(min.x, min.y),
            rect_corner(max.x, min.y),
            rect_corner(max.x, max.y),
            rect_corner(min.x, max.y),
        ]);
        Path { anchors, closed: true }
    }
}

/// A corner anchor at `(x, y)`.
pub open spec fn rect_corner(x: u64, y: u64) -> Anchor {
    Anchor {
        pos: Vec2 { x, y },
        in_handle: Vec2 { x: F64_ZERO, y: F64_ZERO },
        out_handle: Vec2 { x: F64_ZERO, y: F64_ZERO },
        smooth: false,
    }
}

/// A path with its placement transform and style.
#[derive(Clone, Debug, PartialEq)]
pub struct PathNode {
    pub transform: Affine2,
    pub style: Style,
    pub path: Path,
}

impl Default for PathNode {
    /// Identity transform, default style, empty open path.
    fn default() -> (n: PathNode)
        ensures
            n.transform == (Affine2 {
                x_axis: Vec2 { x: F64_ONE, y: F64_ZERO },
                y_axis: Vec2 { x: F64_ZERO, y: F64_ONE },
                translation: Vec2 { x: F64_ZERO, y: F64_ZERO },
            }),
            n.style.fill == Some(default_fill()),
            n.style.opacity == F32_ONE,
            n.path.anchors@.len() == 0,
            !n.path.closed,
    {
        PathNode { transform: Affine2::identity(), style: Style::default(), path: Path::default() }
    }
}

} // verus!
