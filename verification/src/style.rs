//! Paint and stroke styling.
//!
//! Colour channels, opacities and gradient offsets are `f32` values and
//! widths and positions are `f64` values; the library holds each of them as
//! its IEEE-754 bit pattern (`u32` / `u64`), so every value round-trips
//! exactly while the verified code never does floating-point arithmetic.

use vstd::prelude::*;

verus! {

/// Bit pattern of `0.0f32`.
pub const F32_ZERO: u32 = 0;
/// Bit pattern of `0.5f32`.
pub const F32_HALF: u32 = 0x3f00_0000;
/// Bit pattern of `0.8f32`.
pub const F32_0_8: u32 = 0x3f4c_cccd;
/// Bit pattern of `0.85f32`.
pub const F32_0_85: u32 = 0x3f59_999a;
/// Bit pattern of `1.0f32`.
pub const F32_ONE: u32 = 0x3f80_0000;
/// Bit pattern of `0.0f64`.
pub const F64_ZERO: u64 = 0;
/// Bit pattern of `1.0f64`.
pub const F64_ONE: u64 = 0x3ff0_0000_0000_0000;
/// Bit pattern of `2.0f64`.
pub const F64_TWO: u64 = 0x4000_0000_0000_0000;
/// Bit pattern of `24.0f64`.
pub const F64_24: u64 = 0x4038_0000_0000_0000;
/// The sign bit of an `f64` bit pattern.
pub const F64_SIGN: u64 = 0x8000_0000_0000_0000;

/// IEEE-754 negation of an `f64` given by its bits: the sign bit flips.
pub open spec fn f64_neg(x: u64) -> u64 {
    if x >= F64_SIGN { (x - F64_SIGN) as u64 } else { (x + F64_SIGN) as u64 }
}

/// Negate an `f64` held as bits (what unary `-` does to an `f64`).
pub fn neg_f64(x: u64) -> (r: u64)
    ensures
        r == f64_neg(x),
{
    if x >= F64_SIGN { x - F64_SIGN } else { x + F64_SIGN }
}

/// A 2-D vector of two `f64` values, each held as its bit pattern.
#[derive(Clone, Copy, Debug, PartialEq, Eq, Structural)]
pub struct Vec2 {
    pub x: u64,
    pub y: u64,
}

impl Vec2 {
    /// The zero vector (`+0.0`, `+0.0`).
    pub fn zero() -> (r: Vec2)
        ensures
            r.x == F64_ZERO,
            r.y == F64_ZERO,
    {
        Vec2 { x: F64_ZERO, y: F64_ZERO }
    }

    /// Component-wise negation.
    pub fn neg(self) -> (r: Vec2)
        ensures
            r.x == f64_neg(self.x),
            r.y == f64_neg(self.y),
    {
        Vec2 { x: neg_f64(self.x), y: neg_f64(self.y) }
    }
}

/// A 2-D affine transform: a 2x2 matrix by columns, then a translation.
#[derive(Clone, Copy, Debug, PartialEq, Eq, Structural)]
pub struct Affine2 {
    pub x_axis: Vec2,
    pub y_axis: Vec2,
    pub translation: Vec2,
}

impl Affine2 {
    /// The identity transform.
    pub fn identity() -> (r: Affine2)
        ensures
            r.x_axis == (Vec2 { x: F64_ONE, y: F64_ZERO }),
            r.y_axis == (Vec2 { x: F64_ZERO, y: F64_ONE }),
            r.translation == (Vec2 { x: F64_ZERO, y: F64_ZERO }),
    {
        Affine2 {
            x_axis: Vec2 { x: F64_ONE, y: F64_ZERO },
            y_axis: Vec2 { x: F64_ZERO, y: F64_ONE },
            translation: Vec2 { x: F64_ZERO, y: F64_ZERO },
        }
    }
}

/// An RGBA colour; each channel an `f32` in `0.0..=1.0`, held as bits.
#[derive(Clone, Copy, Debug, PartialEq, Eq, Structural)]
pub struct Color {
    pub r: u32,
    pub g: u32,
    pub b: u32,
    pub a: u32,
}

impl Color {
    /// Opaque black.
    pub fn black() -> (c: Color)
        ensures
            c == (Color { r: F32_ZERO, g: F32_ZERO, b: F32_ZERO, a: F32_ONE }),
    {
        Color { r: F32_ZERO, g: F32_ZERO, b: F32_ZERO, a: F32_ONE }
    }

    /// Opaque white.
    pub fn white() -> (c: Color)
        ensures
            c == (Color { r: F32_ONE, g: F32_ONE, b: F32_ONE, a: F32_ONE }),
    {
        Color { r: F32_ONE, g: F32_ONE, b: F32_ONE, a: F32_ONE }
    }

    /// Fully transparent black.
    pub fn transparent() -> (c: Color)
        ensures
            c == (Color { r: F32_ZERO, g: F32_ZERO, b: F32_ZERO, a: F32_ZERO }),
    {
        Color { r: F32_ZERO, g: F32_ZERO, b: F32_ZERO, a: F32_ZERO }
    }

    /// An opaque colour.
    pub fn rgb(r: u32, g: u32, b: u32) -> (c: Color)
        ensures
            c == (Color { r, g, b, a: F32_ONE }),
    {
        Color { r, g, b, a: F32_ONE }
    }

    pub fn rgba(r: u32, g: u32, b: u32, a: u32) -> (c: Color)
        ensures
            c == (Color { r, g, b, a }),
    {
        Color { r, g, b, a }
    }

    /// The channels in `[r, g, b, a]` order.
    pub fn to_array(self) -> (arr: [u32; 4])
        ensures
            arr@ == seq![self.r, self.g, self.b, self.a],
    {
        let arr = [self.r, self.g, self.b, self.a];
        assert(arr@ =~= seq![self.r, self.g, self.b, self.a]);
        arr
    }

    pub fn from_array(arr: [u32; 4]) -> (c: Color)
        ensures
            c == (Color { r: arr@[0], g: arr@[1], b: arr@[2], a: arr@[3] }),
    {
        Color { r: arr[0], g: arr[1], b: arr[2], a: arr[3] }
    }
}

/// A colour at a position (`f32` in `0.0..=1.0`, as bits) along a gradient.
#[derive(Clone, Copy, Debug, PartialEq, Eq, Structural)]
pub struct GradientStop {
    pub offset: u32,
    pub color: Color,
}

#[derive(Clone, Debug, PartialEq)]
pub enum Paint {
    Solid(Color),
    LinearGradient { start: Vec2, end: Vec2, stops: Vec<GradientStop> },
    /// `radius` is an `f64`, as bits.
    RadialGradient { center: Vec2, radius: u64, stops: Vec<GradientStop> },
}

impl Default for Paint {
    fn default() -> (p: Paint)
        ensures
            p == Paint::Solid(Color { r: F32_ZERO, g: F32_ZERO, b: F32_ZERO, a: F32_ONE }),
    {
        Paint::Solid(Color::black())
    }
}

#[derive(Clone, Copy, Debug, PartialEq, Eq, Structural)]
pub enum LineCap {
    Butt,
    Round,
    Square,
}

impl Default for LineCap {
    fn default() -> (c: LineCap)
        ensures
            c == LineCap::Butt,
    {
        LineCap::Butt
    }
}

#[derive(Clone, Copy, Debug, PartialEq, Eq, Structural)]
pub enum LineJoin {
    Miter,
    Round,
    Bevel,
}

impl Default for LineJoin {
    fn default() -> (j: LineJoin)
        ensures
            j == LineJoin::Miter,
    {
        LineJoin::Miter
    }
}

/// A stroke; `width` is an `f64` and each dash length an `f32`, as bits.
#[derive(Clone, Debug, PartialEq)]
pub struct Stroke {
    pub paint: Paint,
    pub width: u64,
    pub cap: LineCap,
    pub join: LineJoin,
    pub dash: Option<Vec<u32>>,
}

impl Default for Stroke {
    /// Black, one unit wide, butt caps, miter joins, solid.
    fn default() -> (s: Stroke)
        ensures
            s.paint == Paint::Solid(Color { r: F32_ZERO, g: F32_ZERO, b: F32_ZERO, a: F32_ONE }),
            s.width == F64_ONE,
            s.cap == LineCap::Butt,
            s.join == LineJoin::Miter,
            s.dash.is_none(),
    {
        Stroke {
            paint: Paint::Solid(Color::black()),
            width: F64_ONE,
            cap: LineCap::Butt,
            join: LineJoin::Miter,
            dash: None,
        }
    }
}

/// Fill, stroke and opacity (`f32`, as bits) of a shape.
#[derive(Clone, Debug, PartialEq)]
pub struct Style {
    pub fill: Option<Paint>,
    pub stroke: Option<Stroke>,
    pub opacity: u32,
}

/// The fill of a default style: light grey (0.8, 0.8, 0.8).
pub open spec fn default_fill() -> Paint {
    Paint::Solid(Color { r: F32_0_8, g: F32_0_8, b: F32_0_8, a: F32_ONE })
}

impl Default for Style {
    /// Light grey fill, default stroke, fully opaque.
    fn default() -> (s: Style)
        ensures
            s.fill == Some(default_fill()),
            s.stroke matches Some(st) && st.paint == Paint::Solid(
                Color { r: F32_ZERO, g: F32_ZERO, b: F32_ZERO, a: F32_ONE },
            ) && st.width == F64_ONE && st.cap == LineCap::Butt && st.join == LineJoin::Miter
                && st.dash.is_none(),
            s.opacity == F32_ONE,
    {
        Style {
            fill: Some(Paint::Solid(Color::rgb(F32_0_8, F32_0_8, F32_0_8))),
            stroke: Some(Stroke::default()),
            opacity: F32_ONE,
        }
    }
}

#[derive(Clone, Copy, Debug, PartialEq, Eq, Structural)]
pub enum BlendMode {
    Normal,
    Multiply,
    Screen,
    Overlay,
    Darken,
    Lighten,
}

impl Default for BlendMode {
    fn default() -> (b: BlendMode)
        ensures
            b == BlendMode::Normal,
    {
        BlendMode::Normal
    }
}

} // verus!
