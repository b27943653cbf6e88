//! The failures that a drawing call can report.

use vstd::prelude::*;

verus! {

/// What can go wrong while drawing.
#[derive(Debug, Clone, Copy, PartialEq, Eq, Structural)]
pub enum SkiaError {
    /// A typeface could not be loaded. No drawing call raises it yet, since
    /// text is left to the caller's pixel-by-pixel fallback.
    Typeface,
    /// The graphics engine could not make an image out of a raw pixel buffer.
    ImageFromRaster,
}

impl SkiaError {
    /// The variant's name as a sequence of characters.
    pub open spec fn text(self) -> Seq<char> {
        match self {
            SkiaError::Typeface => "Typeface"@,
            SkiaError::ImageFromRaster => "ImageFromRaster"@,
        }
    }

    /// The text an error is shown with: the name of its variant.
    pub fn as_str(&self) -> (s: &'static str)
        ensures
            s@ == self.text(),
    {
        match self {
            SkiaError::Typeface => "Typeface",
            SkiaError::ImageFromRaster => "ImageFromRaster",
        }
    }
}

} // verus!
