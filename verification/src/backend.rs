//! The drawing adapter: for each drawing call of the charting side, the
//! command that the engine is to carry out.

use vstd::prelude::*;
use vstd::slice::{slice_subrange, slice_to_vec};
use crate::color::Color;
use crate::command::{DrawCommand, DrawCommandView};
use crate::error::SkiaError;
use crate::paint::{BlendMode, Paint, PaintStyle, Style};
use crate::path::{build_path, lemma_polyline_visits_points_in_order, polyline, Coord, PathVerb};

verus! {

/// The number of bytes in a raster of the given size with four bytes to a
/// pixel and no gaps between the rows.
pub open spec fn raster_len(width: u32, height: u32) -> int {
    width * height * 4
}

/// The adapter's state as a mathematical value.
pub struct BackendView {
    /// The width of the canvas, in pixels.
    pub width: u32,
    /// The height of the canvas, in pixels.
    pub height: u32,
    /// The compositing mode in force; `None` leaves the engine's default.
    pub blend_mode: Option<BlendMode>,
}

impl BackendView {
    /// What `draw_pixel` asks for: the point, in the base paint.
    pub open spec fn pixel(self, point: Coord, color: Color) -> DrawCommandView {
        DrawCommandView::Point { at: point, paint: Paint::base(color, self.blend_mode) }
    }

    /// What `draw_line` asks for: the segment, in the stroked paint.
    pub open spec fn line(self, from: Coord, to: Coord, style: Style) -> DrawCommandView {
        DrawCommandView::Line { from, to, paint: Paint::stroked(style, self.blend_mode) }
    }

    /// What `draw_rect` asks for: the rectangle whose edges are the
    /// coordinates of the two corners as given, filled or stroked by the flag.
    pub open spec fn rect(
        self,
        upper_left: Coord,
        bottom_right: Coord,
        style: Style,
        fill: bool,
    ) -> DrawCommandView {
        DrawCommandView::Rect {
            left: upper_left.0,
            top: upper_left.1,
            right: bottom_right.0,
            bottom: bottom_right.1,
            paint: Paint::shaped(style, fill, self.blend_mode),
        }
    }

    /// What `draw_path` and `fill_polygon` ask for: the polyline through the
    /// points, filled or stroked by the flag.
    pub open spec fn path(self, points: Seq<Coord>, style: Style, filled: bool) -> DrawCommandView {
        DrawCommandView::Path {
            verbs: polyline(points),
            paint: Paint::shaped(style, filled, self.blend_mode),
        }
    }

    /// What `draw_circle` asks for: the circle, filled or stroked by the flag.
    pub open spec fn circle(
        self,
        center: Coord,
        radius: u32,
        style: Style,
        fill: bool,
    ) -> DrawCommandView {
        DrawCommandView::Circle { center, radius, paint: Paint::shaped(style, fill, self.blend_mode) }
    }

    /// What `blit_bitmap` asks for where the buffer is long enough: the image
    /// made of the buffer's first `raster_len` bytes, in rows of four bytes a
    /// pixel, with its upper left corner at `pos`.
    pub open spec fn bitmap(self, pos: Coord, size: (u32, u32), src: Seq<u8>) -> DrawCommandView {
        DrawCommandView::Image {
            at: pos,
            width: size.0,
            height: size.1,
            row_bytes: (size.0 * 4) as u64,
            pixels: src.subrange(0, raster_len(size.0, size.1)),
        }
    }
}

/// The adapter: the size of the canvas it draws for, and the compositing mode
/// that it gives every paint.
pub struct SkiaBackend {
    width: u32,
    height: u32,
    blend_mode: Option<BlendMode>,
}

impl View for SkiaBackend {
    type V = BackendView;

    closed spec fn view(&self) -> BackendView {
        BackendView { width: self.width, height: self.height, blend_mode: self.blend_mode }
    }
}

impl SkiaBackend {
    /// An adapter for a canvas of the given size, with no compositing mode set.
    pub fn new(w: u32, h: u32) -> (backend: Self)
        ensures
            backend@ == (BackendView { width: w, height: h, blend_mode: None }),
    {
        SkiaBackend { width: w, height: h, blend_mode: None }
    }

    /// Sets the compositing mode of every paint made from now on, or with
    /// `None` goes back to the engine's default. The size stays.
    pub fn set_blend_mode(&mut self, blend_mode: Option<BlendMode>) -> (this: &mut Self)
        ensures
            this@ == (BackendView { blend_mode, ..old(self)@ }),
            *final(self) == *final(this),
    {
        self.blend_mode = blend_mode;
        self
    }

    /// The paint that every drawing call starts from.
    pub fn paint(&self, color: Color) -> (paint: Paint)
        ensures
            paint == Paint::base(color, self@.blend_mode),
    {
        Paint {
            color: color.to_argb(),
            anti_alias: true,
            stroke_width: None,
            style: None,
            blend_mode: self.blend_mode,
        }
    }

    /// The polyline through the points, stroked or filled. With no points the
    /// path is empty and the engine has nothing to draw.
    fn draw_path_(&mut self, path: &[Coord], style: &Style, filled: bool) -> (command: DrawCommand)
        ensures
            final(self)@ == old(self)@,
            command@ == old(self)@.path(path@, *style, filled),
    {
        let mut paint = self.paint(style.color);
        paint.stroke_width = Some(style.stroke_width);
        paint.style = Some(PaintStyle::from_flag(filled));
        let verbs = build_path(path);
        DrawCommand::Path { verbs, paint }
    }

    /// The size given at construction.
    pub fn get_size(&self) -> (size: (u32, u32))
        ensures
            size == (self@.width, self@.height),
    {
        (self.width, self.height)
    }

    /// Nothing needs preparing: succeeds, changes nothing and draws nothing.
    pub fn ensure_prepared(&mut self) -> (result: Result<(), SkiaError>)
        ensures
            result is Ok,
            final(self)@ == old(self)@,
    {
        Ok(())
    }

    /// Nothing is held back to be shown: succeeds, changes nothing and draws
    /// nothing.
    pub fn present(&mut self) -> (result: Result<(), SkiaError>)
        ensures
            result is Ok,
            final(self)@ == old(self)@,
    {
        Ok(())
    }

    /// A single point in the given color.
    pub fn draw_pixel(&mut self, point: Coord, color: Color) -> (result: Result<
        DrawCommand,
        SkiaError,
    >)
        ensures
            final(self)@ == old(self)@,
            result matches Ok(command) && command@ == old(self)@.pixel(point, color),
    {
        Ok(DrawCommand::Point { at: point, paint: self.paint(color) })
    }

    /// A straight segment in the style's color and stroke width.
    pub fn draw_line(&mut self, from: Coord, to: Coord, style: &Style) -> (result: Result<
        DrawCommand,
        SkiaError,
    >)
        ensures
            final(self)@ == old(self)@,
            result matches Ok(command) && command@ == old(self)@.line(from, to, *style),
    {
        let mut paint = self.paint(style.color);
        paint.stroke_width = Some(style.stroke_width);
        Ok(DrawCommand::Line { from, to, paint })
    }

    /// The rectangle between two corners, filled or stroked. The corners are
    /// not put in order.
    pub fn draw_rect(
        &mut self,
        upper_left: Coord,
        bottom_right: Coord,
        style: &Style,
        fill: bool,
    ) -> (result: Result<DrawCommand, SkiaError>)
        ensures
            final(self)@ == old(self)@,
            result matches Ok(command) && command@ == old(self)@.rect(
                upper_left,
                bottom_right,
                *style,
                fill,
            ),
    {
        let mut paint = self.paint(style.color);
        paint.stroke_width = Some(style.stroke_width);
        paint.style = Some(PaintStyle::from_flag(fill));
        Ok(
            DrawCommand::Rect {
                left: upper_left.0,
                top: upper_left.1,
                right: bottom_right.0,
                bottom: bottom_right.1,
                paint,
            },
        )
    }

    /// The polyline through the points, stroked.
    pub fn draw_path(&mut self, path: &[Coord], style: &Style) -> (result: Result<
        DrawCommand,
        SkiaError,
    >)
        ensures
            final(self)@ == old(self)@,
            result matches Ok(command) && command@ == old(self)@.path(path@, *style, false),
    {
        Ok(self.draw_path_(path, style, false))
    }

    /// A circle, filled or stroked.
    pub fn draw_circle(&mut self, center: Coord, radius: u32, style: &Style, fill: bool) -> (result:
        Result<DrawCommand, SkiaError>)
        ensures
            final(self)@ == old(self)@,
            result matches Ok(command) && command@ == old(self)@.circle(
                center,
                radius,
                *style,
                fill,
            ),
    {
        let mut paint = self.paint(style.color);
        paint.stroke_width = Some(style.stroke_width);
        paint.style = Some(PaintStyle::from_flag(fill));
        Ok(DrawCommand::Circle { center, radius, paint })
    }

    /// The polygon with the given corners, filled whatever the style says.
    pub fn fill_polygon(&mut self, vert: &[Coord], style: &Style) -> (result: Result<
        DrawCommand,
        SkiaError,
    >)
        ensures
            final(self)@ == old(self)@,
            result matches Ok(command) && command@ == old(self)@.path(vert@, *style, true),
    {
        Ok(self.draw_path_(vert, style, true))
    }

    /// An image from a buffer of raw pixels: four bytes to a pixel (red, green,
    /// blue, and a fourth), row after row without gaps. The buffer's first
    /// `raster_len` bytes are copied into the command.
    ///
    /// A buffer shorter than the size calls for is refused, and nothing is to be
    /// drawn. The engine may still fail to make an image of a buffer that is
    /// long enough: `image_result` gives the call's result then.
    pub fn blit_bitmap(&mut self, pos: Coord, size: (u32, u32), src: &[u8]) -> (result: Result<
        DrawCommand,
        SkiaError,
    >)
        ensures
            final(self)@ == old(self)@,
            src@.len() < raster_len(size.0, size.1) ==> result == Err::<DrawCommand, SkiaError>(
                SkiaError::ImageFromRaster,
            ),
            src@.len() >= raster_len(size.0, size.1) ==> (result matches Ok(command) && command@
                == old(self)@.bitmap(pos, size, src@)),
    {
        let width: u32 = size.0;
        let height: u32 = size.1;
        assert(width * height * 4 <= 0xFFFF_FFFF * 0xFFFF_FFFF * 4) by (nonlinear_arith)
            requires
                0 <= width <= 0xFFFF_FFFF,
                0 <= height <= 0xFFFF_FFFF,
        ;
        let needed: u128 = (width as u128) * (height as u128) * 4;
        if (src.len() as u128) < needed {
            return Err(SkiaError::ImageFromRaster);
        }
        let row_bytes: u64 = (width as u64) * 4;
        let pixels = slice_to_vec(slice_subrange(src, 0, needed as usize));
        Ok(DrawCommand::Image { at: pos, width, height, row_bytes, pixels })
    }
}

/// The result of `blit_bitmap` once the engine has been asked for the image:
/// success if it made one, the image error if it made none.
pub fn image_result(made: bool) -> (result: Result<(), SkiaError>)
    ensures
        made ==> result is Ok,
        !made ==> result == Err::<(), SkiaError>(SkiaError::ImageFromRaster),
{
    if made {
        Ok(())
    } else {
        Err(SkiaError::ImageFromRaster)
    }
}

/// A compositing mode, once set, is the mode of the paint of every line drawn
/// after it; once cleared (set to `None`), such a paint carries none, and the
/// engine composites as it does by default.
pub proof fn lemma_blend_mode_reaches_line_paint(
    state: BackendView,
    mode: Option<BlendMode>,
    from: Coord,
    to: Coord,
    style: Style,
)
    ensures
        (BackendView { blend_mode: mode, ..state }).line(from, to, style).paint() matches Some(
            paint,
        ) && paint.blend_mode == mode,
{
}

/// Whether a command is drawn with a paint that has the given color
/// converted, smoothing on, and the given compositing mode.
pub open spec fn paint_follows(
    command: DrawCommandView,
    color: Color,
    mode: Option<BlendMode>,
) -> bool {
    command.paint() matches Some(paint) && paint.color == color.argb() && paint.anti_alias
        && paint.blend_mode == mode
}

/// Every paint is made afresh from the call's color and the compositing mode
/// in force, with smoothing on: nothing of an earlier call goes into it.
pub proof fn lemma_every_paint_is_fresh(
    state: BackendView,
    a: Coord,
    b: Coord,
    points: Seq<Coord>,
    radius: u32,
    color: Color,
    style: Style,
    fill: bool,
)
    ensures
        paint_follows(state.pixel(a, color), color, state.blend_mode),
        paint_follows(state.line(a, b, style), style.color, state.blend_mode),
        paint_follows(state.rect(a, b, style, fill), style.color, state.blend_mode),
        paint_follows(state.path(points, style, fill), style.color, state.blend_mode),
        paint_follows(state.circle(a, radius, style, fill), style.color, state.blend_mode),
{
}

/// A polygon is filled, whatever the style and the state of the adapter.
pub proof fn lemma_polygon_is_filled(state: BackendView, points: Seq<Coord>, style: Style)
    ensures
        state.path(points, style, true).paint() matches Some(paint) && paint.style == Some(
            PaintStyle::Fill,
        ),
{
}

/// With no points the path is empty, stroked or filled: there is nothing for
/// the engine to draw.
pub proof fn lemma_no_points_no_path(state: BackendView, style: Style, filled: bool)
    ensures
        state.path(Seq::<Coord>::empty(), style, filled) matches DrawCommandView::Path {
            verbs,
            ..
        } && verbs.len() == 0,
{
}

/// The path of a drawing call goes through the points in the order given,
/// each once: a move to the first, then a line to each of the others.
pub proof fn lemma_path_keeps_point_order(
    state: BackendView,
    points: Seq<Coord>,
    style: Style,
    filled: bool,
)
    ensures
        state.path(points, style, filled) matches DrawCommandView::Path { verbs, .. } && {
            &&& verbs.len() == points.len()
            &&& verbs.map_values(|v: PathVerb| v.point()) == points
            &&& forall|i: int| 0 < i < verbs.len() ==> #[trigger] verbs[i] is LineTo
            &&& points.len() > 0 ==> verbs[0] is MoveTo
        },
{
    lemma_polyline_visits_points_in_order(points);
}

/// The image of a buffer that is long enough is a raster without gaps: rows
/// of four bytes a pixel, one row after the other, and as many bytes in all as
/// the size calls for, the first ones of the buffer.
pub proof fn lemma_bitmap_is_tightly_packed(
    state: BackendView,
    pos: Coord,
    size: (u32, u32),
    src: Seq<u8>,
)
    requires
        src.len() >= raster_len(size.0, size.1),
    ensures
        state.bitmap(pos, size, src) matches DrawCommandView::Image {
            at,
            width,
            height,
            row_bytes,
            pixels,
        } && {
            &&& at == pos
            &&& (width, height) == size
            &&& row_bytes == 4 * width
            &&& pixels.len() == height * row_bytes
            &&& forall|i: int| 0 <= i < pixels.len() ==> pixels[i] == src[i]
        },
{
    assert(size.1 * (4 * size.0) == size.0 * size.1 * 4) by (nonlinear_arith);
    assert(0 <= size.0 * size.1 * 4) by (nonlinear_arith);
}

} // verus!
