//! Styled text blocks as the typesetter hands them to the renderer.
use vstd::prelude::*;

verus! {

#[derive(Clone, Copy, Debug, PartialEq, Eq, Structural)]
pub enum FontStyle {
    Regular,
    Italic,
    Bold,
    BoldItalic,
}

#[derive(Clone, Copy, Debug, PartialEq, Eq, Structural)]
pub enum TextRole {
    Body,
    Heading1,
    Heading2,
    Heading3,
    BlockQuote,
}

#[derive(Clone, Copy, Debug, PartialEq, Eq, Structural)]
pub enum TextAlign {
    Left,
    Center,
    Justify,
}

/// A run of text with its role, style and alignment; the text lives in a
/// fixed-capacity string of `N` bytes.
pub struct TextBlock<const N: usize> {
    pub text: heapless::String<N>,
    pub role: TextRole,
    pub style: FontStyle,
    pub align: TextAlign,
}

impl<const N: usize> TextBlock<N> {
    pub fn new(text: heapless::String<N>, role: TextRole, style: FontStyle, align: TextAlign) -> (r:
        Self)
        ensures
            r.text == text,
            r.role == role,
            r.style == style,
            r.align == align,
    {
        Self { text, role, style, align }
    }
}

} // verus!
