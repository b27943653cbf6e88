//! The paint of one drawing call: what the engine's paint object is set to
//! before the primitive is drawn with it.

use vstd::prelude::*;
use crate::color::{Argb, Color};

verus! {

/// How new pixels combine with what the canvas already holds. The variants
/// are the engine's compositing modes, under the engine's names.
#[derive(Debug, Clone, Copy, PartialEq, Eq, Structural)]
pub enum BlendMode {
    Clear,
    Src,
    Dst,
    SrcOver,
    DstOver,
    SrcIn,
    DstIn,
    SrcOut,
    DstOut,
    SrcATop,
    DstATop,
    Xor,
    Plus,
    Modulate,
    Screen,
    Overlay,
    Darken,
    Lighten,
    ColorDodge,
    ColorBurn,
    HardLight,
    SoftLight,
    Difference,
    Exclusion,
    Multiply,
    Hue,
    Saturation,
    Color,
    Luminosity,
}

/// Whether a shape's inside is painted or its outline.
#[derive(Debug, Clone, Copy, PartialEq, Eq, Structural)]
pub enum PaintStyle {
    Fill,
    Stroke,
}

impl PaintStyle {
    /// The style that a fill flag asks for.
    pub open spec fn of_flag(filled: bool) -> PaintStyle {
        if filled {
            PaintStyle::Fill
        } else {
            PaintStyle::Stroke
        }
    }

    /// The style that a fill flag asks for.
    pub fn from_flag(filled: bool) -> (style: PaintStyle)
        ensures
            style == PaintStyle::of_flag(filled),
    {
        if filled {
            PaintStyle::Fill
        } else {
            PaintStyle::Stroke
        }
    }
}

/// What a caller's style gives a drawing call: a color and a stroke width in
/// pixels.
#[derive(Debug, Clone, Copy, PartialEq, Eq)]
pub struct Style {
    pub color: Color,
    pub stroke_width: u32,
}

/// The settings of the paint of one drawing call. A setting that is `None` is
/// not made, which leaves the engine's default in place.
#[derive(Debug, Clone, Copy, PartialEq, Eq)]
pub struct Paint {
    /// The color, opacity included.
    pub color: Argb,
    /// Whether edges are smoothed.
    pub anti_alias: bool,
    /// The width of strokes, in pixels.
    pub stroke_width: Option<u32>,
    /// Fill or stroke.
    pub style: Option<PaintStyle>,
    /// The compositing mode.
    pub blend_mode: Option<BlendMode>,
}

impl Paint {
    /// The paint that every drawing call starts from: the color converted,
    /// smoothing on, the given compositing mode, and nothing else set.
    pub open spec fn base(color: Color, blend_mode: Option<BlendMode>) -> Paint {
        Paint {
            color: color.argb(),
            anti_alias: true,
            stroke_width: None,
            style: None,
            blend_mode,
        }
    }

    /// The base paint with the stroke width of a style.
    pub open spec fn stroked(style: Style, blend_mode: Option<BlendMode>) -> Paint {
        Paint { stroke_width: Some(style.stroke_width), ..Paint::base(style.color, blend_mode) }
    }

    /// The stroked paint with fill or stroke chosen by a flag.
    pub open spec fn shaped(style: Style, filled: bool, blend_mode: Option<BlendMode>) -> Paint {
        Paint { style: Some(PaintStyle::of_flag(filled)), ..Paint::stroked(style, blend_mode) }
    }
}

} // verus!
