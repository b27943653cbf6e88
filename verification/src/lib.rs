//! A drawing adapter between a charting library and a 2D raster graphics
//! engine: for each drawing call of the one, the primitive that the other is
//! to draw and the paint to draw it with.

pub mod alpha;
pub mod backend;
pub mod color;
pub mod command;
pub mod error;
pub mod paint;
pub mod path;

pub use alpha::alpha_to_channel;
pub use backend::{image_result, BackendView, SkiaBackend};
pub use color::{Argb, Color};
pub use command::{DrawCommand, DrawCommandView};
pub use error::SkiaError;
pub use paint::{BlendMode, Paint, PaintStyle, Style};
pub use path::{build_path, Coord, PathVerb};
