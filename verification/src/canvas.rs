use vstd::prelude::*;
use crate::color::Color;
use crate::draw::FilledRect;
use crate::metrics::MAX_SIDE;

verus! {

/// A picture in memory: rows of pixels from top to bottom, each row from
/// left to right, each pixel as its red, green and blue byte.
///
/// The pixels are held in an `RgbImage` of the `image` crate, which
/// nothing here looks into: what a canvas holds is known by
/// `canvas_bytes` and `canvas_width`, and only from what the functions
/// below say of them.
#[verifier::external_body]
pub struct Canvas {
    image: image::RgbImage,
}

/// The bytes of a canvas, three for each pixel, row after row.
pub uninterp spec fn canvas_bytes(c: Canvas) -> Seq<u8>;

/// The number of pixels in one row of a canvas.
pub uninterp spec fn canvas_width(c: Canvas) -> nat;

/// The number of rows of a canvas.
pub open spec fn canvas_height(c: Canvas) -> nat {
    if canvas_width(c) == 0 {
        0
    } else {
        canvas_bytes(c).len() / (3 * canvas_width(c))
    }
}

/// Channel `k` of a colour: red, green, blue for 0, 1, 2.
pub open spec fn channel(c: Color, k: int) -> u8 {
    if k == 0 {
        c.r
    } else if k == 1 {
        c.g
    } else {
        c.b
    }
}

/// The bytes of a picture of one colour.
pub open spec fn solid(width: int, height: int, c: Color) -> Seq<u8> {
    Seq::new((3 * width * height) as nat, |i: int| channel(c, i % 3))
}

/// The bytes of a picture `width` pixels wide after rectangle `r` was
/// filled: the pixels that `r` covers have its colour, the others are as
/// they were.
pub open spec fn with_rect(bytes: Seq<u8>, width: int, r: FilledRect) -> Seq<u8> {
    Seq::new(
        bytes.len(),
        |i: int|
            if r.covers((i / 3) % width, (i / 3) / width) {
                channel(r.color, i % 3)
            } else {
                bytes[i]
            },
    )
}

/// The bytes of a picture after `shapes` were filled one after the other,
/// so that a later one lies over an earlier one.
pub open spec fn painted(bytes: Seq<u8>, width: int, shapes: Seq<FilledRect>) -> Seq<u8>
    decreases shapes.len(),
{
    if shapes.len() == 0 {
        bytes
    } else {
        with_rect(painted(bytes, width, shapes.drop_last()), width, shapes.last())
    }
}

/// The colour of the pixel (`x`, `y`) in a picture `width` pixels wide.
pub open spec fn pixel_of(bytes: Seq<u8>, width: int, x: int, y: int) -> Color {
    let i = 3 * (y * width + x);
    Color { r: bytes[i], g: bytes[i + 1], b: bytes[i + 2] }
}

/// Whether a canvas of this size can be made: it has pixels, neither side
/// is longer than `MAX_SIDE`, and its bytes can be held in one vector.
pub open spec fn size_allowed(width: int, height: int) -> bool {
    &&& 1 <= width <= MAX_SIDE
    &&& 1 <= height <= MAX_SIDE
    &&& 3 * width * height <= isize::MAX
}

/// Makes an image of one colour. This is `RgbImage::from_pixel` of the
/// `image` crate: it allocates three bytes for each pixel, row after row,
/// and writes the pixel into each. It panics where the bytes are more than
/// a vector can hold, which `requires` leaves out.
#[verifier::external_body]
fn blank_image(width: u32, height: u32, color: Color) -> (c: Canvas)
    requires
        3 * width * height <= isize::MAX,
    ensures
        canvas_width(c) == width,
        canvas_bytes(c) == solid(width as int, height as int, color),
{
    Canvas { image: image::RgbImage::from_pixel(width, height, image::Rgb([color.r, color.g, color.b])) }
}

/// Fills a rectangle. This is `draw_filled_rect_mut` of the `imageproc`
/// crate: it sets every pixel that lies both in the rectangle and in the
/// image to the colour, and leaves the size and the other pixels alone. It
/// panics on a rectangle without width or height, and it computes the
/// right and the bottom of the rectangle and of the image in `i32`:
/// `requires` keeps the width, the height and both corners below 2^31.
#[verifier::external_body]
fn fill_image_rect(c: &mut Canvas, r: FilledRect)
    requires
        r.width > 0,
        r.height > 0,
        r.left + r.width <= MAX_SIDE,
        r.top + r.height <= MAX_SIDE,
        canvas_width(*old(c)) <= MAX_SIDE,
        canvas_height(*old(c)) <= MAX_SIDE,
    ensures
        canvas_width(*final(c)) == canvas_width(*old(c)),
        canvas_bytes(*final(c)) == with_rect(
            canvas_bytes(*old(c)),
            canvas_width(*old(c)) as int,
            r,
        ),
{
    imageproc::drawing::draw_filled_rect_mut(
        &mut c.image,
        imageproc::rect::Rect::at(r.left as i32, r.top as i32).of_size(r.width, r.height),
        image::Rgb([r.color.r, r.color.g, r.color.b]),
    );
}

/// The width of an image: `ImageBuffer::width` of the `image` crate.
#[verifier::external_body]
fn image_width(c: &Canvas) -> (w: u32)
    ensures
        w == canvas_width(*c),
{
    c.image.width()
}

/// The height of an image: `ImageBuffer::height` of the `image` crate.
/// The image holds three bytes for each pixel of each row.
#[verifier::external_body]
fn image_height(c: &Canvas) -> (h: u32)
    ensures
        3 * canvas_width(*c) * h == canvas_bytes(*c).len(),
{
    c.image.height()
}

/// Reads one pixel: `ImageBuffer::get_pixel` of the `image` crate, which
/// panics outside the image.
#[verifier::external_body]
fn image_pixel(c: &Canvas, x: u32, y: u32) -> (p: Color)
    requires
        x < canvas_width(*c),
        y < canvas_height(*c),
    ensures
        p == pixel_of(canvas_bytes(*c), canvas_width(*c) as int, x as int, y as int),
{
    let p = c.image.get_pixel(x, y);
    Color { r: p.0[0], g: p.0[1], b: p.0[2] }
}

/// Hands out the bytes of an image: `ImageBuffer::into_raw` of the `image`
/// crate.
#[verifier::external_body]
fn image_bytes(c: Canvas) -> (bytes: Vec<u8>)
    ensures
        bytes@ == canvas_bytes(c),
{
    c.image.into_raw()
}

/// A rectangle that covers no pixel changes nothing.
pub proof fn lemma_rect_outside(bytes: Seq<u8>, width: int, r: FilledRect)
    requires
        width > 0,
        r.width == 0 || r.height == 0 || r.left >= width || 3 * width * r.top >= bytes.len(),
    ensures
        with_rect(bytes, width, r) == bytes,
{
    let out = with_rect(bytes, width, r);
    assert forall|i: int| 0 <= i < bytes.len() implies #[trigger] out[i] == bytes[i] by {
        let p = i / 3;
        assert(0 <= p % width < width) by (nonlinear_arith)
            requires
                p >= 0,
                width > 0,
        ;
        if 3 * width * r.top >= bytes.len() {
            assert(p / width < r.top) by (nonlinear_arith)
                requires
                    0 <= p,
                    3 * p <= i,
                    i < 3 * width * r.top,
                    width > 0,
            ;
        }
    }
    assert(out =~= bytes);
}

/// Only the part of a rectangle that lies inside the picture counts.
pub proof fn lemma_rect_clipped(bytes: Seq<u8>, width: int, r: FilledRect, s: FilledRect)
    requires
        width > 0,
        s.left == r.left,
        s.top == r.top,
        s.color == r.color,
        s.width == r.width || (s.width <= r.width && s.left + s.width >= width),
        s.height == r.height || (s.height <= r.height && 3 * width * (s.top + s.height)
            >= bytes.len()),
    ensures
        with_rect(bytes, width, r) == with_rect(bytes, width, s),
{
    let whole = with_rect(bytes, width, r);
    let part = with_rect(bytes, width, s);
    assert forall|i: int| 0 <= i < bytes.len() implies #[trigger] whole[i] == part[i] by {
        let p = i / 3;
        assert(0 <= p % width < width) by (nonlinear_arith)
            requires
                p >= 0,
                width > 0,
        ;
        if s.height != r.height {
            assert(p / width < s.top + s.height) by (nonlinear_arith)
                requires
                    0 <= p,
                    3 * p <= i,
                    i < 3 * width * (s.top + s.height),
                    width > 0,
            ;
        }
    }
    assert(whole =~= part);
}

impl Canvas {
    /// The canvas has pixels, and its sides are no longer than `MAX_SIDE`.
    pub open spec fn wf(&self) -> bool {
        &&& 1 <= canvas_width(*self) <= MAX_SIDE
        &&& 1 <= canvas_height(*self) <= MAX_SIDE
        &&& canvas_bytes(*self).len() == 3 * canvas_width(*self) * canvas_height(*self)
    }

    /// A canvas of one colour, where one of that size can be made.
    pub fn new(width: u32, height: u32, color: Color) -> (c: Option<Canvas>)
        ensures
            c is Some <==> size_allowed(width as int, height as int),
            c is Some ==> {
                &&& c->0.wf()
                &&& canvas_width(c->0) == width
                &&& canvas_height(c->0) == height
                &&& canvas_bytes(c->0) == solid(width as int, height as int, color)
            },
    {
        if width == 0 || height == 0 || width > MAX_SIDE || height > MAX_SIDE {
            return None;
        }
        let w: u128 = width as u128;
        let h: u128 = height as u128;
        assert(3 * w * h <= 3 * 0x8000_0000 * 0x8000_0000) by (nonlinear_arith)
            requires
                w <= 0x8000_0000,
                h <= 0x8000_0000,
        ;
        let size: u128 = 3 * w * h;
        if size > isize::MAX as u128 {
            return None;
        }
        let c = blank_image(width, height, color);
        proof {
            assert((3 * w * h) / (3 * w) == h) by (nonlinear_arith)
                requires
                    w > 0,
                    h >= 0,
            ;
        }
        Some(c)
    }

    /// The number of pixels in a row.
    pub fn width(&self) -> (w: u32)
        ensures
            w == canvas_width(*self),
    {
        image_width(self)
    }

    /// The number of rows.
    pub fn height(&self) -> (h: u32)
        requires
            self.wf(),
        ensures
            h == canvas_height(*self),
    {
        let h = image_height(self);
        proof {
            let w = canvas_width(*self) as int;
            let t = canvas_height(*self) as int;
            assert(h == t) by (nonlinear_arith)
                requires
                    3 * w * h == 3 * w * t,
                    w > 0,
            ;
        }
        h
    }

    /// The colour of the pixel (`x`, `y`), where the canvas has it.
    pub fn pixel(&self, x: u32, y: u32) -> (p: Option<Color>)
        requires
            self.wf(),
        ensures
            p is Some <==> x < canvas_width(*self) && y < canvas_height(*self),
            p is Some ==> p->0 == pixel_of(
                canvas_bytes(*self),
                canvas_width(*self) as int,
                x as int,
                y as int,
            ),
    {
        if x < self.width() && y < self.height() {
            Some(image_pixel(self, x, y))
        } else {
            None
        }
    }

    /// Fills a rectangle: the pixels that it covers take its colour. The
    /// part of it that lies outside the canvas is left out.
    pub fn fill_rect(&mut self, r: FilledRect)
        requires
            old(self).wf(),
        ensures
            final(self).wf(),
            canvas_width(*final(self)) == canvas_width(*old(self)),
            canvas_height(*final(self)) == canvas_height(*old(self)),
            canvas_bytes(*final(self)) == with_rect(
                canvas_bytes(*old(self)),
                canvas_width(*old(self)) as int,
                r,
            ),
    {
        let w = self.width();
        let h = self.height();
        let ghost bytes = canvas_bytes(*self);
        if r.width == 0 || r.height == 0 || r.left >= w || r.top >= h {
            proof {
                if r.top >= h {
                    assert(3 * w * r.top >= 3 * w * h) by (nonlinear_arith)
                        requires
                            r.top >= h,
                            w > 0,
                    ;
                }
                lemma_rect_outside(bytes, w as int, r);
            }
            return ;
        }
        let wide: u32 = if r.width > w - r.left {
            w - r.left
        } else {
            r.width
        };
        let tall: u32 = if r.height > h - r.top {
            h - r.top
        } else {
            r.height
        };
        let s = FilledRect { left: r.left, top: r.top, width: wide, height: tall, color: r.color };
        proof {
            if tall != r.height {
                assert(3 * w * (s.top + s.height) == 3 * w * h) by (nonlinear_arith)
                    requires
                        s.top + s.height == h,
                ;
            }
            lemma_rect_clipped(bytes, w as int, r, s);
        }
        fill_image_rect(self, s);
    }

    /// Gives up the canvas for its bytes.
    pub fn into_bytes(self) -> (bytes: Vec<u8>)
        ensures
            bytes@ == canvas_bytes(self),
    {
        image_bytes(self)
    }
}

} // verus!
