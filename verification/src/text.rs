//! Text node.

use vstd::prelude::*;
use crate::style::{default_fill, Color, Style, Vec2, F32_ONE, F32_ZERO, F64_24, F64_ZERO};

verus! {

#[derive(Clone, Copy, Debug, PartialEq, Eq, Structural)]
pub enum FontFamily {
    Proportional,
    Monospace,
}

impl Default for FontFamily {
    fn default() -> (f: FontFamily)
        ensures
            f == FontFamily::Proportional,
    {
        FontFamily::Proportional
    }
}

/// A block of text. `font_size` and `width` are `f64` values, as bits.
#[derive(Clone, Debug, PartialEq)]
pub struct TextNode {
    /// World-space top-left of the text's bounding box.
    pub position: Vec2,
    pub text: String,
    /// World units (= screen pixels at 100% zoom).
    pub font_size: u64,
    pub family: FontFamily,
    pub color: Color,
    pub style: Style,
    pub width: Option<u64>,
}

impl Default for TextNode {
    /// Empty 24-unit proportional black text at the origin.
    fn default() -> (t: TextNode)
        ensures
            t.position == (Vec2 { x: F64_ZERO, y: F64_ZERO }),
            t.text@.len() == 0,
            t.font_size == F64_24,
            t.family == FontFamily::Proportional,
            t.color == (Color { r: F32_ZERO, g: F32_ZERO, b: F32_ZERO, a: F32_ONE }),
            t.style.fill == Some(default_fill()),
            t.style.opacity == F32_ONE,
            t.width.is_none(),
    {
        TextNode {
            position: Vec2::zero(),
            text: String::new(),
            font_size: F64_24,
            family: FontFamily::Proportional,
            color: Color::black(),
            style: Style::default(),
            width: None,
        }
    }
}

} // verus!
