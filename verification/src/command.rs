//! Drawing commands: the primitive that a drawing call asks the engine for,
//! with everything the engine needs to carry it out.

use vstd::prelude::*;
use crate::paint::Paint;
use crate::path::{Coord, PathVerb};

verus! {

/// One primitive for the engine to draw.
#[derive(Debug, PartialEq, Eq)]
pub enum DrawCommand {
    /// A single point.
    Point { at: Coord, paint: Paint },
    /// A straight segment between two points.
    Line { from: Coord, to: Coord, paint: Paint },
    /// An axis-aligned rectangle given by its four edges, taken as they come:
    /// nothing puts `left` before `right` or `top` before `bottom`.
    Rect { left: i32, top: i32, right: i32, bottom: i32, paint: Paint },
    /// A path.
    Path { verbs: Vec<PathVerb>, paint: Paint },
    /// A circle.
    Circle { center: Coord, radius: u32, paint: Paint },
    /// An image with its upper left corner at `at`. The pixels are opaque, four
    /// bytes each (red, green, blue, and a fourth that is ignored), in rows of
    /// `row_bytes` bytes from the top down.
    Image { at: Coord, width: u32, height: u32, row_bytes: u64, pixels: Vec<u8> },
}

/// A drawing command as a mathematical value.
pub enum DrawCommandView {
    Point { at: Coord, paint: Paint },
    Line { from: Coord, to: Coord, paint: Paint },
    Rect { left: i32, top: i32, right: i32, bottom: i32, paint: Paint },
    Path { verbs: Seq<PathVerb>, paint: Paint },
    Circle { center: Coord, radius: u32, paint: Paint },
    Image { at: Coord, width: u32, height: u32, row_bytes: u64, pixels: Seq<u8> },
}

impl DrawCommandView {
    /// The paint that the primitive is drawn with; an image is drawn with none.
    pub open spec fn paint(self) -> Option<Paint> {
        match self {
            DrawCommandView::Point { paint, .. } => Some(paint),
            DrawCommandView::Line { paint, .. } => Some(paint),
            DrawCommandView::Rect { paint, .. } => Some(paint),
            DrawCommandView::Path { paint, .. } => Some(paint),
            DrawCommandView::Circle { paint, .. } => Some(paint),
            DrawCommandView::Image { .. } => None,
        }
    }
}

impl View for DrawCommand {
    type V = DrawCommandView;

    open spec fn view(&self) -> DrawCommandView {
        match *self {
            DrawCommand::Point { at, paint } => DrawCommandView::Point { at, paint },
            DrawCommand::Line { from, to, paint } => DrawCommandView::Line { from, to, paint },
            DrawCommand::Rect { left, top, right, bottom, paint } => DrawCommandView::Rect {
                left,
                top,
                right,
                bottom,
                paint,
            },
            DrawCommand::Path { verbs, paint } => DrawCommandView::Path { verbs: verbs@, paint },
            DrawCommand::Circle { center, radius, paint } => DrawCommandView::Circle {
                center,
                radius,
                paint,
            },
            DrawCommand::Image { at, width, height, row_bytes, pixels } => DrawCommandView::Image {
                at,
                width,
                height,
                row_bytes,
                pixels: pixels@,
            },
        }
    }
}

} // verus!
