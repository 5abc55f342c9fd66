use vstd::prelude::*;
use crate::color::Color;

verus! {

/// A piece of text to be drawn with its top-left corner at (`x`, `y`).
#[derive(Clone, Debug)]
pub struct TextRun {
    pub x: u32,
    pub y: u32,
    pub color: Color,
    pub text: String,
}

/// What a `TextRun` stands for.
pub struct TextRunView {
    pub x: int,
    pub y: int,
    pub color: Color,
    pub text: Seq<char>,
}

impl View for TextRun {
    type V = TextRunView;

    open spec fn view(&self) -> TextRunView {
        TextRunView { x: self.x as int, y: self.y as int, color: self.color, text: self.text@ }
    }
}

impl DeepView for TextRun {
    type V = TextRunView;

    open spec fn deep_view(&self) -> TextRunView {
        self@
    }
}

/// A rectangle of one colour. It covers the pixels (`x`, `y`) with
/// `left <= x < left + width` and `top <= y < top + height`.
#[derive(Clone, Copy, Debug, PartialEq, Eq, Structural)]
pub struct FilledRect {
    pub left: u32,
    pub top: u32,
    pub width: u32,
    pub height: u32,
    pub color: Color,
}

impl FilledRect {
    /// Whether the rectangle covers the pixel (`x`, `y`).
    pub open spec fn covers(&self, x: int, y: int) -> bool {
        &&& self.left <= x < self.left + self.width
        &&& self.top <= y < self.top + self.height
    }

    /// Whether the whole rectangle lies in a picture of this size.
    pub open spec fn inside(&self, width: int, height: int) -> bool {
        self.left + self.width <= width && self.top + self.height <= height
    }
}

} // verus!
