//! Deep copies of document values, each proved to agree with the value copied.
//!
//! Two values "agree" when their plain fields are equal and their vectors and
//! strings hold the same elements.

use vstd::prelude::*;
use crate::doc::{Node, NodeKind};
use crate::image::{ImageData, ImageNode};
use crate::path::{Path, PathNode};
use crate::style::{Paint, Stroke, Style};
use crate::text::TextNode;

verus! {

pub open spec fn same_paint(a: Paint, b: Paint) -> bool {
    match a {
        Paint::Solid(c) => b == Paint::Solid(c),
        Paint::LinearGradient { start, end, stops } => {
            &&& b is LinearGradient
            &&& b->LinearGradient_start == start
            &&& b->LinearGradient_end == end
            &&& b->LinearGradient_stops@ == stops@
        },
        Paint::RadialGradient { center, radius, stops } => {
            &&& b is RadialGradient
            &&& b->RadialGradient_center == center
            &&& b->RadialGradient_radius == radius
            &&& b->RadialGradient_stops@ == stops@
        },
    }
}

pub open spec fn same_opt_paint(a: Option<Paint>, b: Option<Paint>) -> bool {
    match a {
        None => b is None,
        Some(p) => b is Some && same_paint(p, b->0),
    }
}

pub open spec fn same_dash(a: Option<Vec<u32>>, b: Option<Vec<u32>>) -> bool {
    match a {
        None => b is None,
        Some(d) => b is Some && b->0@ == d@,
    }
}

pub open spec fn same_stroke(a: Stroke, b: Stroke) -> bool {
    &&& same_paint(a.paint, b.paint)
    &&& a.width == b.width
    &&& a.cap == b.cap
    &&& a.join == b.join
    &&& same_dash(a.dash, b.dash)
}

pub open spec fn same_opt_stroke(a: Option<Stroke>, b: Option<Stroke>) -> bool {
    match a {
        None => b is None,
        Some(s) => b is Some && same_stroke(s, b->0),
    }
}

pub open spec fn same_style(a: Style, b: Style) -> bool {
    &&& same_opt_paint(a.fill, b.fill)
    &&& same_opt_stroke(a.stroke, b.stroke)
    &&& a.opacity == b.opacity
}

pub open spec fn same_image_data(a: ImageData, b: ImageData) -> bool {
    &&& a.bytes@ == b.bytes@
    &&& a.width == b.width
    &&& a.height == b.height
    &&& a.hash == b.hash
}

pub open spec fn same_text(a: TextNode, b: TextNode) -> bool {
    &&& a.position == b.position
    &&& a.text@ == b.text@
    &&& a.font_size == b.font_size
    &&& a.family == b.family
    &&& a.color == b.color
    &&& same_style(a.style, b.style)
    &&& a.width == b.width
}

pub open spec fn same_kind(a: NodeKind, b: NodeKind) -> bool {
    match a {
        NodeKind::Path(p) => {
            &&& b is Path
            &&& b->Path_0.transform == p.transform
            &&& same_style(p.style, b->Path_0.style)
            &&& b->Path_0.path.anchors@ == p.path.anchors@
            &&& b->Path_0.path.closed == p.path.closed
        },
        NodeKind::Image(i) => {
            &&& b is Image
            &&& b->Image_0.position == i.position
            &&& b->Image_0.size == i.size
            &&& same_style(i.style, b->Image_0.style)
            &&& same_image_data(i.image, b->Image_0.image)
        },
        NodeKind::Text(t) => b is Text && same_text(t, b->Text_0),
    }
}

pub open spec fn same_node(a: Node, b: Node) -> bool {
    a.name@ == b.name@ && same_kind(a.kind, b.kind)
}

impl Paint {
    pub fn duplicate(&self) -> (r: Paint)
        ensures
            same_paint(*self, r),
    {
        match self {
            Paint::Solid(c) => Paint::Solid(*c),
            Paint::LinearGradient { start, end, stops } => {
                Paint::LinearGradient { start: *start, end: *end, stops: stops.clone() }
            },
            Paint::RadialGradient { center, radius, stops } => {
                Paint::RadialGradient { center: *center, radius: *radius, stops: stops.clone() }
            },
        }
    }
}

impl Stroke {
    pub fn duplicate(&self) -> (r: Stroke)
        ensures
            same_stroke(*self, r),
    {
        let dash = match &self.dash {
            None => None,
            Some(d) => Some(d.clone()),
        };
        Stroke { paint: self.paint.duplicate(), width: self.width, cap: self.cap, join: self.join, dash }
    }
}

impl Style {
    pub fn duplicate(&self) -> (r: Style)
        ensures
            same_style(*self, r),
    {
        let fill = match &self.fill {
            None => None,
            Some(p) => Some(p.duplicate()),
        };
        let stroke = match &self.stroke {
            None => None,
            Some(s) => Some(s.duplicate()),
        };
        Style { fill, stroke, opacity: self.opacity }
    }
}

impl Path {
    pub fn duplicate(&self) -> (r: Path)
        ensures
            r.anchors@ == self.anchors@,
            r.closed == self.closed,
    {
        Path { anchors: self.anchors.clone(), closed: self.closed }
    }
}

impl PathNode {
    pub fn duplicate(&self) -> (r: PathNode)
        ensures
            r.transform == self.transform,
            same_style(self.style, r.style),
            r.path.anchors@ == self.path.anchors@,
            r.path.closed == self.path.closed,
    {
        PathNode { transform: self.transform, style: self.style.duplicate(), path: self.path.duplicate() }
    }
}

impl ImageData {
    pub fn duplicate(&self) -> (r: ImageData)
        ensures
            same_image_data(*self, r),
    {
        ImageData { bytes: self.bytes.clone(), width: self.width, height: self.height, hash: self.hash }
    }
}

impl ImageNode {
    pub fn duplicate(&self) -> (r: ImageNode)
        ensures
            r.position == self.position,
            r.size == self.size,
            same_style(self.style, r.style),
            same_image_data(self.image, r.image),
    {
        ImageNode {
            position: self.position,
            size: self.size,
            style: self.style.duplicate(),
            image: self.image.duplicate(),
        }
    }
}

impl TextNode {
    pub fn duplicate(&self) -> (r: TextNode)
        ensures
            same_text(*self, r),
    {
        TextNode {
            position: self.position,
            text: self.text.clone(),
            font_size: self.font_size,
            family: self.family,
            color: self.color,
            style: self.style.duplicate(),
            width: self.width,
        }
    }
}

impl NodeKind {
    pub fn duplicate(&self) -> (r: NodeKind)
        ensures
            same_kind(*self, r),
    {
        match self {
            NodeKind::Path(p) => NodeKind::Path(p.duplicate()),
            NodeKind::Image(i) => NodeKind::Image(i.duplicate()),
            NodeKind::Text(t) => NodeKind::Text(t.duplicate()),
        }
    }
}

impl Node {
    pub fn duplicate(&self) -> (r: Node)
        ensures
            same_node(*self, r),
    {
        Node { name: self.name.clone(), kind: self.kind.duplicate() }
    }
}

} // verus!
