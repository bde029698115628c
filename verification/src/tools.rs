//! Tools, drag handles, shape kinds and drawing modes of the editor.

use vstd::prelude::*;
use crate::style::Vec2;

verus! {

#[derive(Clone, Copy, Debug, PartialEq, Eq, Structural, Hash)]
pub enum ToolKind {
    Select,
    DirectSelect,
    Pen,
    Text,
    Rectangle,
    Ellipse,
    Hand,
    Artboard,
}

impl ToolKind {
    pub open spec fn spec_label(self) -> Seq<char> {
        match self {
            ToolKind::Select => "Select"@,
            ToolKind::DirectSelect => "Direct Select"@,
            ToolKind::Pen => "Pen"@,
            ToolKind::Text => "Text"@,
            ToolKind::Rectangle => "Rectangle"@,
            ToolKind::Ellipse => "Ellipse"@,
            ToolKind::Hand => "Hand"@,
            ToolKind::Artboard => "Artboard"@,
        }
    }

    /// Display name.
    pub fn label(self) -> (s: &'static str)
        ensures
            s@ == self.spec_label(),
    {
        match self {
            ToolKind::Select => "Select",
            ToolKind::DirectSelect => "Direct Select",
            ToolKind::Pen => "Pen",
            ToolKind::Text => "Text",
            ToolKind::Rectangle => "Rectangle",
            ToolKind::Ellipse => "Ellipse",
            ToolKind::Hand => "Hand",
            ToolKind::Artboard => "Artboard",
        }
    }

    pub open spec fn spec_icon(self) -> Seq<char> {
        match self {
            ToolKind::Select => "▶"@,
            ToolKind::DirectSelect => "▷"@,
            ToolKind::Pen => "✒"@,
            ToolKind::Text => "T"@,
            ToolKind::Rectangle => "▭"@,
            ToolKind::Ellipse => "◯"@,
            ToolKind::Hand => "✋"@,
            ToolKind::Artboard => "◰"@,
        }
    }

    /// Palette glyph.
    pub fn icon(self) -> (s: &'static str)
        ensures
            s@ == self.spec_icon(),
    {
        match self {
            ToolKind::Select => "▶",
            ToolKind::DirectSelect => "▷",
            ToolKind::Pen => "✒",
            ToolKind::Text => "T",
            ToolKind::Rectangle => "▭",
            ToolKind::Ellipse => "◯",
            ToolKind::Hand => "✋",
            ToolKind::Artboard => "◰",
        }
    }

    pub open spec fn spec_shortcut(self) -> char {
        match self {
            ToolKind::Select => 'V',
            ToolKind::DirectSelect => 'A',
            ToolKind::Pen => 'P',
            ToolKind::Text => 'T',
            ToolKind::Rectangle => 'M',
            ToolKind::Ellipse => 'L',
            ToolKind::Hand => 'H',
            ToolKind::Artboard => 'O',
        }
    }

    /// The letter key that selects the tool.
    pub fn shortcut(self) -> (c: char)
        ensures
            c == self.spec_shortcut(),
    {
        match self {
            ToolKind::Select => 'V',
            ToolKind::DirectSelect => 'A',
            ToolKind::Pen => 'P',
            ToolKind::Text => 'T',
            ToolKind::Rectangle => 'M',
            ToolKind::Ellipse => 'L',
            ToolKind::Hand => 'H',
            ToolKind::Artboard => 'O',
        }
    }

    /// Every tool, in palette order.
    pub fn all() -> (v: Vec<ToolKind>)
        ensures
            v@ == seq![
                ToolKind::Select,
                ToolKind::DirectSelect,
                ToolKind::Pen,
                ToolKind::Text,
                ToolKind::Rectangle,
                ToolKind::Ellipse,
                ToolKind::Hand,
                ToolKind::Artboard,
            ],
    {
        let v = vec![
            ToolKind::Select,
            ToolKind::DirectSelect,
            ToolKind::Pen,
            ToolKind::Text,
            ToolKind::Rectangle,
            ToolKind::Ellipse,
            ToolKind::Hand,
            ToolKind::Artboard,
        ];
        assert(v@ =~= seq![
            ToolKind::Select,
            ToolKind::DirectSelect,
            ToolKind::Pen,
            ToolKind::Text,
            ToolKind::Rectangle,
            ToolKind::Ellipse,
            ToolKind::Hand,
            ToolKind::Artboard,
        ]);
        v
    }
}

/// Which handle of an anchor is being dragged.
#[derive(Clone, Copy, Debug, PartialEq, Eq, Structural, Hash)]
pub enum HandlePart {
    In,
    Out,
}

/// A corner of an axis-aligned box (y grows downwards).
#[derive(Clone, Copy, Debug, PartialEq, Eq, Structural, Hash)]
pub enum Corner {
    NW,
    NE,
    SE,
    SW,
}

impl Corner {
    /// Whether the corner lies on the box's max side in x and in y.
    pub open spec fn on_max(self) -> (bool, bool) {
        match self {
            Corner::NW => (false, false),
            Corner::NE => (true, false),
            Corner::SE => (true, true),
            Corner::SW => (false, true),
        }
    }

    /// This corner of the box with corners `min` and `max`.
    pub open spec fn spec_world_pos(self, min: Vec2, max: Vec2) -> Vec2 {
        Vec2 {
            x: if self.on_max().0 { max.x } else { min.x },
            y: if self.on_max().1 { max.y } else { min.y },
        }
    }

    /// This corner of the box with corners `min` and `max`.
    pub fn world_pos(self, min: Vec2, max: Vec2) -> (p: Vec2)
        ensures
            p.x == (if self.on_max().0 { max.x } else { min.x }),
            p.y == (if self.on_max().1 { max.y } else { min.y }),
    {
        match self {
            Corner::NW => Vec2 { x: min.x, y: min.y },
            Corner::NE => Vec2 { x: max.x, y: min.y },
            Corner::SE => Vec2 { x: max.x, y: max.y },
            Corner::SW => Vec2 { x: min.x, y: max.y },
        }
    }

    pub open spec fn spec_opposite(self) -> Corner {
        match self {
            Corner::NW => Corner::SE,
            Corner::NE => Corner::SW,
            Corner::SE => Corner::NW,
            Corner::SW => Corner::NE,
        }
    }

    /// The diagonally opposite corner: the other side in both x and y.
    pub fn opposite(self) -> (c: Corner)
        ensures
            c == self.spec_opposite(),
            c.on_max().0 == !self.on_max().0,
            c.on_max().1 == !self.on_max().1,
    {
        match self {
            Corner::NW => Corner::SE,
            Corner::NE => Corner::SW,
            Corner::SE => Corner::NW,
            Corner::SW => Corner::NE,
        }
    }
}

/// Taking the opposite corner twice gives back the corner; a corner is
/// never its own opposite.
pub proof fn law_opposite_involution(c: Corner)
    ensures
        c.spec_opposite().spec_opposite() == c,
        c.spec_opposite() != c,
{
}

#[derive(Clone, Copy, Debug, PartialEq, Eq, Structural, Hash)]
pub enum ShapeKind {
    Rect,
    Ellipse,
}

/// Mirror mode for newly drawn shapes.
#[derive(Clone, Copy, Debug, PartialEq, Eq, Structural, Hash)]
pub enum SymmetryMode {
    Off,
    Horizontal,
    Vertical,
    Dual,
}

/// One mirror copy: which axes it is flipped about, and the suffix its
/// name gets.
#[derive(Clone, Copy, Debug, PartialEq, Eq, Structural)]
pub struct MirrorCopy {
    pub flip_x: bool,
    pub flip_y: bool,
}

impl MirrorCopy {
    pub open spec fn spec_suffix(self) -> Seq<char> {
        if self.flip_x && self.flip_y {
            " (HV-Mirrored)"@
        } else if self.flip_x {
            " (H-Mirrored)"@
        } else {
            " (V-Mirrored)"@
        }
    }

    /// What the copy's name gets appended.
    pub fn suffix(self) -> (s: &'static str)
        ensures
            s@ == self.spec_suffix(),
    {
        if self.flip_x && self.flip_y {
            " (HV-Mirrored)"
        } else if self.flip_x {
            " (H-Mirrored)"
        } else {
            " (V-Mirrored)"
        }
    }

    /// The name of the copy of a node named `name`.
    pub fn name_for(self, name: &str) -> (s: String)
        ensures
            s@ == name@ + self.spec_suffix(),
    {
        let mut s = String::from_str(name);
        s.append(self.suffix());
        s
    }
}

impl SymmetryMode {
    pub open spec fn spec_copies(self) -> Seq<MirrorCopy> {
        match self {
            SymmetryMode::Off => seq![],
            SymmetryMode::Horizontal => seq![MirrorCopy { flip_x: true, flip_y: false }],
            SymmetryMode::Vertical => seq![MirrorCopy { flip_x: false, flip_y: true }],
            SymmetryMode::Dual => seq![
                MirrorCopy { flip_x: true, flip_y: false },
                MirrorCopy { flip_x: false, flip_y: true },
                MirrorCopy { flip_x: true, flip_y: true },
            ],
        }
    }

    /// The mirror copies a newly drawn shape gets, in insertion order.
    pub fn copies(self) -> (v: Vec<MirrorCopy>)
        ensures
            v@ == self.spec_copies(),
    {
        let mut v = Vec::new();
        match self {
            SymmetryMode::Off => {},
            SymmetryMode::Horizontal => {
                v.push(MirrorCopy { flip_x: true, flip_y: false });
            },
            SymmetryMode::Vertical => {
                v.push(MirrorCopy { flip_x: false, flip_y: true });
            },
            SymmetryMode::Dual => {
                v.push(MirrorCopy { flip_x: true, flip_y: false });
                v.push(MirrorCopy { flip_x: false, flip_y: true });
                v.push(MirrorCopy { flip_x: true, flip_y: true });
            },
        }
        assert(v@ =~= self.spec_copies());
        v
    }
}

/// Where mirror copies of a drawn shape go in insertion order: across the
/// vertical axis first, then across the horizontal axis, then across both.
pub open spec fn copy_rank(c: MirrorCopy) -> int {
    if c.flip_x && !c.flip_y {
        0
    } else if !c.flip_x && c.flip_y {
        1
    } else {
        2
    }
}

/// A mode mirrors across the vertical axis (flipping x) when it is
/// horizontal or dual, and across the horizontal axis (flipping y) when it
/// is vertical or dual.
pub open spec fn mirrors_x(mode: SymmetryMode) -> bool {
    mode is Horizontal || mode is Dual
}

pub open spec fn mirrors_y(mode: SymmetryMode) -> bool {
    mode is Vertical || mode is Dual
}

/// The copies of a drawn shape are one for each non-empty combination of
/// the mode's axes, each once, in the order H, V, HV: every copy flips at
/// least one axis and only axes of the mode, every such combination has a
/// copy, no two copies are alike.
pub proof fn law_mirror_copies(mode: SymmetryMode)
    ensures
        forall|i: int| #![trigger mode.spec_copies()[i]] 0 <= i < mode.spec_copies().len() ==> {
            let c = mode.spec_copies()[i];
            &&& c.flip_x || c.flip_y
            &&& c.flip_x ==> mirrors_x(mode)
            &&& c.flip_y ==> mirrors_y(mode)
        },
        forall|fx: bool, fy: bool| (fx || fy) && (fx ==> mirrors_x(mode)) && (fy ==> mirrors_y(mode))
            ==> #[trigger] mode.spec_copies().contains(MirrorCopy { flip_x: fx, flip_y: fy }),
        forall|i: int, j: int| 0 <= i < j < mode.spec_copies().len()
            ==> copy_rank(mode.spec_copies()[i]) < copy_rank(mode.spec_copies()[j]),
{
    let cs = mode.spec_copies();
    assert forall|fx: bool, fy: bool| (fx || fy) && (fx ==> mirrors_x(mode)) && (fy ==> mirrors_y(mode))
        implies #[trigger] cs.contains(MirrorCopy { flip_x: fx, flip_y: fy }) by {
        let c = MirrorCopy { flip_x: fx, flip_y: fy };
        match mode {
            SymmetryMode::Off => {},
            SymmetryMode::Horizontal => { assert(cs[0] == c); },
            SymmetryMode::Vertical => { assert(cs[0] == c); },
            SymmetryMode::Dual => {
                if fx && !fy { assert(cs[0] == c); }
                else if !fx && fy { assert(cs[1] == c); }
                else { assert(cs[2] == c); }
            },
        }
    }
}

/// A copy's name suffix names exactly the axes it is mirrored across:
/// " (H-Mirrored)", " (V-Mirrored)" or " (HV-Mirrored)".
pub proof fn law_copy_suffix(c: MirrorCopy)
    requires
        c.flip_x || c.flip_y,
    ensures
        c.spec_suffix() == " ("@ + (if c.flip_x { "H"@ } else { ""@ }) + (if c.flip_y { "V"@ } else { ""@ })
            + "-Mirrored)"@,
{
    reveal_strlit(" (");
    reveal_strlit("H");
    reveal_strlit("V");
    reveal_strlit("");
    reveal_strlit("-Mirrored)");
    reveal_strlit(" (HV-Mirrored)");
    reveal_strlit(" (H-Mirrored)");
    reveal_strlit(" (V-Mirrored)");
    if c.flip_x && c.flip_y {
        assert(c.spec_suffix() =~= " ("@ + "H"@ + "V"@ + "-Mirrored)"@);
    } else if c.flip_x {
        assert(c.spec_suffix() =~= " ("@ + "H"@ + ""@ + "-Mirrored)"@);
    } else {
        assert(c.spec_suffix() =~= " ("@ + ""@ + "V"@ + "-Mirrored)"@);
    }
}

/// Path boolean operations.
#[derive(Clone, Copy, Debug, PartialEq, Eq, Structural, Hash)]
pub enum BooleanOp {
    Union,
    Intersect,
    Subtract,
}

impl BooleanOp {
    pub open spec fn spec_label(self) -> Seq<char> {
        match self {
            BooleanOp::Union => "Union Shapes"@,
            BooleanOp::Intersect => "Intersect Shapes"@,
            BooleanOp::Subtract => "Subtract Shapes"@,
        }
    }

    /// The undo label of the operation.
    pub fn label(self) -> (s: &'static str)
        ensures
            s@ == self.spec_label(),
    {
        match self {
            BooleanOp::Union => "Union Shapes",
            BooleanOp::Intersect => "Intersect Shapes",
            BooleanOp::Subtract => "Subtract Shapes",
        }
    }
}


/// The label the tool palette shows for a tool's shortcut key: the letter,
/// for the keys of the drawing and selection tools; "?" for any other.
pub open spec fn spec_key_name(key: char) -> Seq<char> {
    if key == 'A' || key == 'V' || key == 'M' || key == 'L' || key == 'H' || key == 'P' || key == 'T' {
        seq![key]
    } else {
        "?"@
    }
}

pub fn key_name(key: char) -> (s: &'static str)
    ensures
        s@ == spec_key_name(key),
{
    proof {
        reveal_strlit("A");
        reveal_strlit("V");
        reveal_strlit("M");
        reveal_strlit("L");
        reveal_strlit("H");
        reveal_strlit("P");
        reveal_strlit("T");
    }
    match key {
        'A' => "A",
        'V' => "V",
        'M' => "M",
        'L' => "L",
        'H' => "H",
        'P' => "P",
        'T' => "T",
        _ => "?",
    }
}

} // verus!
