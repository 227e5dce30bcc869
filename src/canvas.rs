//! Painting a frame into an RGB image of the `image` crate.
//!
//! An image is seen through two names: its size `(width, height)` and the map
//! from each pixel position to its color. Writes off the image are refused and
//! reported to the caller, never carried out.
use vstd::prelude::*;

verus! {

/// An RGB image of the `image` crate, 8 bits per channel. Verus sees it only
/// through `canvas_size` and `canvas_pixels`.
#[verifier::external_body]
pub struct Canvas {
    image: image::RgbImage,
}

/// The width and height of a canvas.
pub uninterp spec fn canvas_size(c: Canvas) -> (u32, u32);

/// The color of each pixel of a canvas, keyed by `(column, row)`.
pub uninterp spec fn canvas_pixels(c: Canvas) -> Map<(u32, u32), (u8, u8, u8)>;

/// An 8-bit-per-channel color.
#[derive(Clone, Copy, Debug, PartialEq, Eq)]
pub struct Color {
    pub red: u8,
    pub green: u8,
    pub blue: u8,
}

impl Color {
    pub open spec fn rgb(self) -> (u8, u8, u8) {
        (self.red, self.green, self.blue)
    }
}

/// Whether `p` lies on an image of size `size`.
pub open spec fn on_canvas(p: (u32, u32), size: (u32, u32)) -> bool {
    p.0 < size.0 && p.1 < size.1
}

/// The pixels of a black image of size `size`.
pub open spec fn black_pixels(size: (u32, u32)) -> Map<(u32, u32), (u8, u8, u8)> {
    Map::new(|p: (u32, u32)| on_canvas(p, size), |p: (u32, u32)| (0u8, 0u8, 0u8))
}

/// Relies on image::ImageBuffer::new: an image of the given size whose
/// channels are all zero; it panics when `3 * width * height` overflows usize.
#[verifier::external_body]
fn blank_image(width: u32, height: u32) -> (r: Canvas)
    requires
        3 * width * height <= usize::MAX,
    ensures
        canvas_size(r) == (width, height),
        canvas_pixels(r) == black_pixels((width, height)),
{
    Canvas { image: image::RgbImage::new(width, height) }
}

/// Relies on image::ImageBuffer::dimensions: the image's width and height.
#[verifier::external_body]
fn image_size(img: &Canvas) -> (r: (u32, u32))
    ensures
        r == canvas_size(*img),
{
    img.image.dimensions()
}

/// Relies on image::ImageBuffer::put_pixel: overwrites the one pixel at
/// `(x, y)`; it panics when that position is off the image.
#[verifier::external_body]
fn put_color(img: &mut Canvas, x: u32, y: u32, color: Color)
    requires
        on_canvas((x, y), canvas_size(*old(img))),
    ensures
        canvas_size(*final(img)) == canvas_size(*old(img)),
        canvas_pixels(*final(img)) == canvas_pixels(*old(img)).insert((x, y), color.rgb()),
{
    img.image.put_pixel(x, y, image::Rgb([color.red, color.green, color.blue]))
}

/// The bytes of an image of size `size`: row by row, and within a row pixel
/// by pixel, each pixel as its red, green and blue channels.
pub open spec fn raster(size: (u32, u32), pixels: Map<(u32, u32), (u8, u8, u8)>) -> Seq<u8> {
    Seq::new(
        (3 * size.0 * size.1) as nat,
        |i: int|
            {
                let c = pixels[(((i / 3) % size.0 as int) as u32, ((i / 3) / size.0 as int) as u32)];
                if i % 3 == 0 {
                    c.0
                } else if i % 3 == 1 {
                    c.1
                } else {
                    c.2
                }
            },
    )
}

/// Relies on image::ImageBuffer::as_raw: the image's buffer, which holds
/// three channels per pixel, pixels in row-major order.
#[verifier::external_body]
fn image_bytes(img: &Canvas) -> (r: Vec<u8>)
    ensures
        r@ == raster(canvas_size(*img), canvas_pixels(*img)),
{
    img.image.as_raw().clone()
}

impl Canvas {
    /// A black canvas of `width` x `height` pixels.
    pub fn new(width: u32, height: u32) -> (r: Canvas)
        requires
            3 * width * height <= usize::MAX,
        ensures
            canvas_size(r) == (width, height),
            canvas_pixels(r) == black_pixels((width, height)),
    {
        blank_image(width, height)
    }

    /// The canvas's width and height.
    pub fn size(&self) -> (r: (u32, u32))
        ensures
            r == canvas_size(*self),
    {
        image_size(self)
    }

    /// The canvas as raw bytes, three channels per pixel, in row-major order.
    pub fn to_rgb_bytes(&self) -> (r: Vec<u8>)
        ensures
            r@ == raster(canvas_size(*self), canvas_pixels(*self)),
    {
        image_bytes(self)
    }
}

/// Writes `color` at pixel `at` if it lies on the image. Returns whether it
/// was written; a `false` result means the write was refused and the image
/// left as it was.
pub fn place_pixel(img: &mut Canvas, at: (u32, u32), color: Color) -> (placed: bool)
    ensures
        placed == on_canvas(at, canvas_size(*old(img))),
        canvas_size(*final(img)) == canvas_size(*old(img)),
        canvas_pixels(*final(img)) == if placed {
            canvas_pixels(*old(img)).insert(at, color.rgb())
        } else {
            canvas_pixels(*old(img))
        },
{
    let (w, h) = image_size(img);
    if at.0 < w && at.1 < h {
        put_color(img, at.0, at.1, color);
        true
    } else {
        false
    }
}

/// `pixels` with the cells of `column` from row `top` down to, not
/// including, row `bottom` set to `c`.
pub open spec fn painted_below(
    pixels: Map<(u32, u32), (u8, u8, u8)>,
    column: u32,
    top: u32,
    bottom: u32,
    c: (u8, u8, u8),
) -> Map<(u32, u32), (u8, u8, u8)> {
    Map::new(
        |p: (u32, u32)| pixels.dom().contains(p) || (p.0 == column && top <= p.1 < bottom),
        |p: (u32, u32)| if p.0 == column && top <= p.1 < bottom { c } else { pixels[p] },
    )
}

/// Paints `column` with `color` from row `top` down to the bottom edge: the
/// water below the waterline. A column off the image leaves it unchanged.
pub fn fill_below(img: &mut Canvas, column: u32, top: u32, color: Color)
    ensures
        canvas_size(*final(img)) == canvas_size(*old(img)),
        canvas_pixels(*final(img)) == if column < canvas_size(*old(img)).0 {
            painted_below(canvas_pixels(*old(img)), column, top, canvas_size(*old(img)).1, color.rgb())
        } else {
            canvas_pixels(*old(img))
        },
{
    let ghost start = canvas_pixels(*img);
    let (w, h) = image_size(img);
    if column >= w {
        return;
    }
    let mut k: u32 = top;
    if k > h {
        k = h;
    }
    assert(painted_below(start, column, top, k, color.rgb()) =~= start);
    while k < h
        invariant
            canvas_size(*img) == (w, h),
            column < w,
            top <= k || k == h,
            k <= h,
            canvas_pixels(*img) == painted_below(start, column, top, k, color.rgb()),
        decreases h - k,
    {
        place_pixel(img, (column, k), color);
        assert(canvas_pixels(*img) =~= painted_below(start, column, top, (k + 1) as u32, color.rgb()));
        k = k + 1;
    }
    assert(top <= h ==> canvas_pixels(*img) =~= painted_below(start, column, top, h, color.rgb()));
    assert(top > h ==> painted_below(start, column, top, h, color.rgb()) =~= start);
}

/// The color of pixel `p` in a frame: the highlight where the overlay row of
/// its column falls, the fill at and below the column's waterline, black above.
pub open spec fn frame_color(
    waterlines: Seq<u32>,
    overlay: Option<Seq<u32>>,
    fill: (u8, u8, u8),
    highlight: (u8, u8, u8),
    p: (u32, u32),
) -> (u8, u8, u8) {
    if overlay is Some && p.1 == overlay->0[p.0 as int] {
        highlight
    } else if waterlines[p.0 as int] <= p.1 {
        fill
    } else {
        (0u8, 0u8, 0u8)
    }
}

/// The view of an optional row list.
pub open spec fn rows_view(rows: Option<Vec<u32>>) -> Option<Seq<u32>> {
    match rows {
        Some(v) => Some(v@),
        None => None,
    }
}

/// The pixels of a frame whose columns left of `done` are painted and the
/// rest still black.
pub open spec fn frame_prefix(
    size: (u32, u32),
    waterlines: Seq<u32>,
    overlay: Option<Seq<u32>>,
    fill: (u8, u8, u8),
    highlight: (u8, u8, u8),
    done: int,
) -> Map<(u32, u32), (u8, u8, u8)> {
    Map::new(
        |p: (u32, u32)| on_canvas(p, size),
        |p: (u32, u32)|
            if p.0 < done {
                frame_color(waterlines, overlay, fill, highlight, p)
            } else {
                (0u8, 0u8, 0u8)
            },
    )
}

/// The overlay writes of the first `n` columns that fall off a canvas of
/// `height` rows, in column order.
pub open spec fn refused_overlay(overlay: Seq<u32>, height: u32, n: nat) -> Seq<(u32, u32)>
    decreases n,
{
    if n == 0 {
        Seq::empty()
    } else {
        let before = refused_overlay(overlay, height, (n - 1) as nat);
        if overlay[n - 1] >= height {
            before.push(((n - 1) as u32, overlay[n - 1]))
        } else {
            before
        }
    }
}

/// Paints one frame of `width` x `height` pixels. Column `i` is filled with
/// `fill` from row `waterlines[i]` down to the bottom edge; with an overlay,
/// the pixel at row `overlay[i]` of column `i` is then set to `highlight`
/// (rows off the canvas are skipped and returned, as `(column, row)`).
/// Everything else stays black.
pub fn render_frame(
    width: u32,
    height: u32,
    waterlines: &Vec<u32>,
    overlay: &Option<Vec<u32>>,
    fill: Color,
    highlight: Color,
) -> (r: (Canvas, Vec<(u32, u32)>))
    requires
        3 * width * height <= usize::MAX,
        waterlines.len() == width,
        overlay matches Some(o) ==> o.len() == width,
    ensures
        canvas_size(r.0) == (width, height),
        canvas_pixels(r.0) == frame_prefix(
            (width, height),
            waterlines@,
            rows_view(*overlay),
            fill.rgb(),
            highlight.rgb(),
            width as int,
        ),
        r.1@ == match overlay {
            Some(o) => refused_overlay(o@, height, width as nat),
            None => Seq::empty(),
        },
{
    let ghost size = (width, height);
    let ghost ov = rows_view(*overlay);
    let mut canvas = Canvas::new(width, height);
    assert(canvas_pixels(canvas) =~= frame_prefix(size, waterlines@, ov, fill.rgb(), highlight.rgb(), 0));
    let mut refused: Vec<(u32, u32)> = Vec::new();
    let mut i: u32 = 0;
    while i < width
        invariant
            i <= width,
            waterlines.len() == width,
            overlay matches Some(o) ==> o.len() == width,
            ov == rows_view(*overlay),
            size == (width, height),
            canvas_size(canvas) == size,
            canvas_pixels(canvas) == frame_prefix(size, waterlines@, ov, fill.rgb(), highlight.rgb(), i as int),
            refused@ == match overlay {
                Some(o) => refused_overlay(o@, height, i as nat),
                None => Seq::empty(),
            },
        decreases width - i,
    {
        let ghost before = canvas_pixels(canvas);
        fill_below(&mut canvas, i, waterlines[i as usize], fill);
        let ghost filled = canvas_pixels(canvas);
        assert(filled == painted_below(before, i, waterlines@[i as int], height, fill.rgb()));
        match overlay {
            Some(rows) => {
                if !place_pixel(&mut canvas, (i, rows[i as usize]), highlight) {
                    refused.push((i, rows[i as usize]));
                }
            },
            None => {},
        }
        assert(canvas_pixels(canvas) =~= frame_prefix(
            size,
            waterlines@,
            ov,
            fill.rgb(),
            highlight.rgb(),
            i + 1,
        ));
        i = i + 1;
    }
    (canvas, refused)
}

} // verus!
