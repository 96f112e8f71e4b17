//! Vector-text styles and their cell metrics.
use vstd::prelude::*;
use crate::display::theme::Color;

verus! {

#[derive(Clone, Copy, Debug, PartialEq, Eq, Structural)]
pub enum TextWeight {
    Regular,
    Bold,
}

#[derive(Clone, Copy, Debug, PartialEq, Eq, Structural)]
pub struct TextStyle {
    pub size: i32,
    pub color: Color,
    pub weight: TextWeight,
}

impl TextStyle {
    pub fn regular(size: i32, color: Color) -> (r: Self)
        ensures
            r == (TextStyle { size, color, weight: TextWeight::Regular }),
    {
        Self { size, color, weight: TextWeight::Regular }
    }

    pub fn bold(size: i32, color: Color) -> (r: Self)
        ensures
            r == (TextStyle { size, color, weight: TextWeight::Bold }),
    {
        Self { size, color, weight: TextWeight::Bold }
    }
}

#[derive(Clone, Copy, Debug, PartialEq, Eq, Structural)]
pub struct TextMetrics {
    pub cell_width: i32,
    pub line_height: i32,
    pub glyph_height: i32,
    pub stroke: i32,
}

pub struct TextRenderer;

/// The effective size: anything below 10 is drawn at 10.
pub open spec fn effective_size(size: i32) -> int {
    if size < 10 {
        10
    } else {
        size as int
    }
}

impl TextRenderer {
    /// Sizes from 18 up draw at double scale; bold adds one to the stroke.
    pub fn metrics(style: TextStyle) -> (m: TextMetrics)
        requires
            style.size <= i32::MAX - 6,
        ensures
            m.cell_width == effective_size(style.size) / 2 + 4,
            m.line_height == effective_size(style.size) + 6,
            m.glyph_height == effective_size(style.size),
            m.stroke == (if effective_size(style.size) >= 18 { 2int } else { 1int }) + (
            match style.weight {
                TextWeight::Regular => 0int,
                TextWeight::Bold => 1int,
            }),
    {
        let size = if style.size < 10 { 10 } else { style.size };
        let scale = if size >= 18 { 2 } else { 1 };
        let stroke = match style.weight {
            TextWeight::Regular => scale,
            TextWeight::Bold => scale + 1,
        };
        TextMetrics { cell_width: size / 2 + 4, line_height: size + 6, glyph_height: size, stroke }
    }
}

/// Every size gives cells at least 9 wide, lines at least 16 high and a
/// visible stroke.
pub proof fn lemma_metrics_are_bounded(size: i32)
    ensures
        effective_size(size) / 2 + 4 >= 9,
        effective_size(size) + 6 >= 16,
{
}

} // verus!
