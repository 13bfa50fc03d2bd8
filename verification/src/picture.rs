//! Pictures, as the `image` crate holds them: rows of RGBA pixels, four bytes each.

use image::RgbaImage;
use vstd::prelude::*;

verus! {

/// A picture. What it holds is `picture_bytes`: its rows from the top, each from
/// the left, four bytes a pixel and nothing between them.
#[verifier::external_body]
pub struct Picture {
    image: RgbaImage,
}

/// The bytes of a picture.
pub uninterp spec fn picture_bytes(picture: Picture) -> Seq<u8>;

/// How many pixels wide a picture is.
pub uninterp spec fn picture_width(picture: Picture) -> u32;

/// How many pixels high a picture is.
pub uninterp spec fn picture_height(picture: Picture) -> u32;

/// A picture, as its size and its bytes.
#[verifier::ext_equal]
pub struct PictureView {
    pub width: nat,
    pub height: nat,
    pub bytes: Seq<u8>,
}

/// Where the bytes of a pixel start.
pub open spec fn pixel_start(width: nat, x: int, y: int) -> int {
    4 * (y * width + x)
}

impl PictureView {
    /// Whether every pixel of the picture is there and nothing else is.
    pub open spec fn whole(self) -> bool {
        self.bytes.len() == 4 * self.width * self.height
    }

    /// Whether a place is inside the picture.
    pub open spec fn has(self, x: int, y: int) -> bool {
        0 <= x < self.width && 0 <= y < self.height
    }

    /// The four bytes of a pixel.
    pub open spec fn pixel(self, x: int, y: int) -> Seq<u8> {
        let k = pixel_start(self.width, x, y);
        seq![self.bytes[k], self.bytes[k + 1], self.bytes[k + 2], self.bytes[k + 3]]
    }

    /// The picture with one pixel painted.
    pub open spec fn painted(self, x: int, y: int, color: Seq<u8>) -> PictureView {
        let k = pixel_start(self.width, x, y);
        PictureView {
            bytes: self.bytes.update(k, color[0]).update(k + 1, color[1]).update(
                k + 2,
                color[2],
            ).update(k + 3, color[3]),
            ..self
        }
    }

    /// A rectangle cut out of the picture: the pixel `(a, b)` of the cut is the
    /// pixel `(x + a, y + b)` of the picture.
    pub open spec fn cut(self, x: nat, y: nat, w: nat, h: nat) -> PictureView {
        PictureView {
            width: w,
            height: h,
            bytes: Seq::new(
                4 * w * h,
                |k: int|
                    self.bytes[pixel_start(self.width, x + k / 4 % (w as int), y + k / 4 / (
                    w as int)) + k % 4],
            ),
        }
    }
}

impl View for Picture {
    type V = PictureView;

    open spec fn view(&self) -> PictureView {
        PictureView {
            width: picture_width(*self) as nat,
            height: picture_height(*self) as nat,
            bytes: picture_bytes(*self),
        }
    }
}

/// `RgbaImage::from_raw` on exactly the bytes of that many pixels, in rows a machine can
/// address: the picture they are, which the call then always makes.
#[verifier::external_body]
fn raw_picture(width: u32, height: u32, bytes: Vec<u8>) -> (r: Option<Picture>)
    requires
        4 * width <= usize::MAX,
        bytes@.len() == 4 * width * height,
    ensures
        r is Some,
        r->0@ == (PictureView { width: width as nat, height: height as nat, bytes: bytes@ }),
{
    RgbaImage::from_raw(width, height, bytes).map(|image| Picture { image })
}

/// `RgbaImage::dimensions`: the picture's width and height. A row of it is no longer
/// than a machine can address: no picture is made with a longer one.
#[verifier::external_body]
fn raw_dimensions(picture: &Picture) -> (r: (u32, u32))
    ensures
        r.0 == picture_width(*picture),
        r.1 == picture_height(*picture),
        4 * r.0 <= usize::MAX,
{
    picture.image.dimensions()
}

/// `RgbaImage::as_raw`: the picture's bytes, which are those of its pixels and no
/// more: every picture is made of exactly as many.
#[verifier::external_body]
fn raw_bytes(picture: &Picture) -> (r: &Vec<u8>)
    ensures
        r@ == picture_bytes(*picture),
        r@.len() == 4 * picture_width(*picture) * picture_height(*picture),
{
    picture.image.as_raw()
}

/// `RgbaImage::put_pixel` inside the picture: that pixel is painted and every
/// other stays.
#[verifier::external_body]
fn raw_put(picture: &mut Picture, x: u32, y: u32, color: [u8; 4])
    requires
        old(picture)@.has(x as int, y as int),
    ensures
        final(picture)@ == old(picture)@.painted(x as int, y as int, color@),
{
    picture.image.put_pixel(x, y, image::Rgba(color));
}

/// `imageops::crop_imm` and `SubImage::to_image` on a rectangle inside the picture:
/// a picture of that rectangle.
#[verifier::external_body]
fn raw_cut(picture: &Picture, x: u32, y: u32, w: u32, h: u32) -> (r: Picture)
    requires
        x + w <= picture_width(*picture),
        y + h <= picture_height(*picture),
    ensures
        r@ == picture@.cut(x as nat, y as nat, w as nat, h as nat),
{
    Picture { image: image::imageops::crop_imm(&picture.image, x, y, w, h).to_image() }
}

/// The bytes a picture has after it was resampled to another size.
pub uninterp spec fn resampled(
    bytes: Seq<u8>,
    width: u32,
    height: u32,
    to_width: u32,
    to_height: u32,
) -> Seq<u8>;

/// The longest side a picture is resampled from or to.
pub const MAX_SIDE: u32 = 0x10_0000;

/// A picture resampled to another size.
pub open spec fn resized_to(picture: PictureView, to_width: u32, to_height: u32) -> PictureView {
    PictureView {
        width: to_width as nat,
        height: to_height as nat,
        bytes: resampled(
            picture.bytes,
            picture.width as u32,
            picture.height as u32,
            to_width,
            to_height,
        ),
    }
}

/// `imageops::resize` with the triangle filter: a picture of that size, whose bytes
/// depend on the bytes and the two sizes alone, and which are the picture's own where
/// the size stays. The sides are bounded so that single precision places every
/// sample, and the memory between the two passes is one a machine can address.
#[verifier::external_body]
fn raw_resize(picture: &Picture, to_width: u32, to_height: u32) -> (r: Picture)
    requires
        picture_width(*picture) <= MAX_SIDE,
        picture_height(*picture) <= MAX_SIDE,
        to_width <= MAX_SIDE,
        to_height <= MAX_SIDE,
        16 * picture_width(*picture) * to_height <= isize::MAX,
        16 * to_width * to_height <= isize::MAX,
    ensures
        picture_width(r) == to_width,
        picture_height(r) == to_height,
        picture_bytes(r) == resampled(
            picture_bytes(*picture),
            picture_width(*picture),
            picture_height(*picture),
            to_width,
            to_height,
        ),
        to_width == picture@.width && to_height == picture@.height ==> r@ == picture@,
{
    let triangle = image::imageops::FilterType::Triangle;
    Picture { image: image::imageops::resize(&picture.image, to_width, to_height, triangle) }
}

impl Picture {
    /// A picture of these bytes, where they are exactly those of that many pixels. A row
    /// that a machine could not address is no picture's.
    pub fn new(width: u32, height: u32, bytes: Vec<u8>) -> (r: Option<Picture>)
        ensures
            r is Some <==> bytes@.len() == 4 * width * height && 4 * width <= usize::MAX,
            r matches Some(picture) ==> picture@ == (PictureView {
                width: width as nat,
                height: height as nat,
                bytes: bytes@,
            }) && picture@.whole(),
    {
        let row: u64 = 4 * width as u64;
        assert(row * height <= 4 * u32::MAX * u32::MAX) by (nonlinear_arith)
            requires
                row <= 4 * u32::MAX,
                0 <= height <= u32::MAX,
        ;
        let needed: u128 = row as u128 * height as u128;
        if bytes.len() as u128 != needed || row > usize::MAX as u64 {
            return None;
        }
        raw_picture(width, height, bytes)
    }

    /// How many pixels wide the picture is.
    pub fn width(&self) -> (r: u32)
        ensures
            r == self@.width,
            4 * r <= usize::MAX,
            self@.whole(),
    {
        let _ = self.bytes();
        raw_dimensions(self).0
    }

    /// How many pixels high the picture is.
    pub fn height(&self) -> (r: u32)
        ensures
            r == self@.height,
            self@.whole(),
    {
        let _ = self.bytes();
        raw_dimensions(self).1
    }

    /// The picture's bytes.
    pub fn bytes(&self) -> (r: &Vec<u8>)
        ensures
            r@ == self@.bytes,
            self@.whole(),
    {
        raw_bytes(self)
    }

    /// Paints one pixel inside the picture.
    pub fn put(&mut self, x: u32, y: u32, color: [u8; 4])
        requires
            old(self)@.has(x as int, y as int),
        ensures
            final(self)@ == old(self)@.painted(x as int, y as int, color@),
    {
        raw_put(self, x, y, color)
    }

    /// Whether a picture can be resampled to a size.
    pub open spec fn resizable(picture: PictureView, to_width: u32, to_height: u32) -> bool {
        &&& picture.width <= MAX_SIDE
        &&& picture.height <= MAX_SIDE
        &&& to_width <= MAX_SIDE
        &&& to_height <= MAX_SIDE
        &&& 16 * picture.width * to_height <= isize::MAX
        &&& 16 * to_width * to_height <= isize::MAX
    }

    /// Resamples the picture to another size.
    pub fn resize(&self, to_width: u32, to_height: u32) -> (r: Picture)
        requires
            Picture::resizable(self@, to_width, to_height),
        ensures
            r@ == resized_to(self@, to_width, to_height),
            to_width == self@.width && to_height == self@.height ==> r@ == self@,
            r@.whole(),
    {
        let resized = raw_resize(self, to_width, to_height);
        let _ = resized.bytes();
        resized
    }

    /// Cuts a rectangle inside the picture out of it.
    pub fn cut(&self, x: u32, y: u32, w: u32, h: u32) -> (r: Picture)
        requires
            x + w <= self@.width,
            y + h <= self@.height,
        ensures
            r@ == self@.cut(x as nat, y as nat, w as nat, h as nat),
            r@.whole(),
    {
        let cut = raw_cut(self, x, y, w, h);
        let _ = cut.bytes();
        cut
    }
}

/// The bytes of a pixel inside a picture are bytes of the picture, and two places
/// start at the same byte only if they are the same.
pub proof fn pixels_have_their_own_bytes(width: nat, height: nat, x: int, y: int, a: int, b: int)
    requires
        0 <= x < width && 0 <= y < height,
        0 <= a < width && 0 <= b < height,
    ensures
        0 <= pixel_start(width, x, y),
        pixel_start(width, x, y) + 4 <= 4 * width * height,
        (x, y) != (a, b) ==> pixel_start(width, x, y) + 4 <= pixel_start(width, a, b)
            || pixel_start(width, a, b) + 4 <= pixel_start(width, x, y),
{
    assert(y * width + x + 1 <= width * height) by (nonlinear_arith)
        requires
            0 <= x < width,
            0 <= y < height,
    ;
    assert(0 <= y * width) by (nonlinear_arith)
        requires
            0 <= y,
            0 <= width,
    ;
    assert(4 * width * height == 4 * (width * height)) by (nonlinear_arith);
    if y < b {
        assert(y * width + width <= b * width) by (nonlinear_arith)
            requires
                y + 1 <= b,
                0 <= width,
        ;
    } else if b < y {
        assert(b * width + width <= y * width) by (nonlinear_arith)
            requires
                b + 1 <= y,
                0 <= width,
        ;
    }
}

/// Painting a pixel changes that pixel and no other.
pub proof fn painting_changes_one_pixel(
    picture: PictureView,
    x: int,
    y: int,
    color: Seq<u8>,
    a: int,
    b: int,
)
    requires
        picture.whole(),
        picture.has(x, y),
        picture.has(a, b),
        color.len() == 4,
    ensures
        picture.painted(x, y, color).whole(),
        picture.painted(x, y, color).pixel(a, b) == (if (x, y) == (a, b) {
            color
        } else {
            picture.pixel(a, b)
        }),
{
    pixels_have_their_own_bytes(picture.width, picture.height, x, y, a, b);
    pixels_have_their_own_bytes(picture.width, picture.height, a, b, x, y);
    assert(picture.painted(x, y, color).pixel(a, b) =~= if (x, y) == (a, b) {
        color
    } else {
        picture.pixel(a, b)
    });
}

/// A pixel of a cut is the pixel of the picture it was cut from.
pub proof fn a_cut_keeps_its_pixels(
    picture: PictureView,
    x: nat,
    y: nat,
    w: nat,
    h: nat,
    a: int,
    b: int,
)
    requires
        picture.whole(),
        x + w <= picture.width,
        y + h <= picture.height,
        0 <= a < w && 0 <= b < h,
    ensures
        picture.cut(x, y, w, h).pixel(a, b) == picture.pixel(x + a, y + b),
{
    let cut = picture.cut(x, y, w, h);
    let k = pixel_start(w, a, b);
    pixels_have_their_own_bytes(w, h, a, b, a, b);
    let p = b * w + a;
    vstd::arithmetic::div_mod::lemma_fundamental_div_mod_converse(p, w as int, b, a);
    let from = pixel_start(picture.width, x + a, y + b);
    assert((k + 1) / 4 == p && (k + 2) / 4 == p && (k + 3) / 4 == p && k / 4 == p);
    assert(cut.bytes[k] == picture.bytes[from + k % 4]);
    assert(cut.bytes[k + 1] == picture.bytes[from + (k + 1) % 4]);
    assert(cut.bytes[k + 2] == picture.bytes[from + (k + 2) % 4]);
    assert(cut.bytes[k + 3] == picture.bytes[from + (k + 3) % 4]);
    assert(cut.pixel(a, b) =~= picture.pixel(x + a, y + b));
}

/// The bytes of a picture run from its first pixel, four to each, along a row and then on to
/// the next.
pub proof fn pixels_run_row_by_row(width: nat, x: int, y: int)
    ensures
        pixel_start(width, 0, 0) == 0,
        pixel_start(width, x + 1, y) == pixel_start(width, x, y) + 4,
        pixel_start(width, x, y + 1) == pixel_start(width, x, y) + 4 * width,
        pixel_start(width, width as int, y) == pixel_start(width, 0, y + 1),
{
    assert((y + 1) * width == y * width + width) by (nonlinear_arith);
    assert(0 * width == 0) by (nonlinear_arith);
}

} // verus!
