//! Pictures, and their file formats.
use vstd::prelude::*;

use crate::screens::{least, most};

verus! {

/// A picture of any kind.
#[verifier::external_type_specification]
#[verifier::external_body]
pub struct ExDynamicImage(image::DynamicImage);

/// What the `image` crate reads in the bytes of a file: a picture, or the words of
/// an error.
pub uninterp spec fn loaded(bytes: Seq<u8>) -> Result<image::DynamicImage, Seq<char>>;

/// Calls `image::load_from_memory`. The picture, or the words of the error, are a
/// function of the bytes.
#[verifier::external_body]
pub(crate) fn load(bytes: &[u8]) -> (r: Result<image::DynamicImage, String>)
    ensures
        match r {
            Ok(i) => loaded(bytes@) matches Ok(t) && t == i,
            Err(e) => loaded(bytes@) matches Err(t) && t == e@,
        },
{
    image::load_from_memory(bytes).map_err(|e| e.to_string())
}

/// The bytes of the PNG file that the `image` crate makes of a picture, or the
/// words of an error.
pub uninterp spec fn png(img: image::DynamicImage) -> Result<Seq<u8>, Seq<char>>;

/// Whether a PNG file of a picture with four bytes for each pixel has these pixels when
/// it is read.
pub open spec fn keeps_pixels(img: image::DynamicImage, file: Result<Vec<u8>, String>) -> bool {
    forall|width: u32, height: u32, rgba: Seq<u8>|
        img == #[trigger] rgba_image(width, height, rgba) && rgba.len() == width * height * 4
            ==> match file {
            Ok(b) => match loaded(b@) {
                Ok(back) => pixels(back) == (width, height, rgba),
                Err(_) => true,
            },
            Err(_) => true,
        }
}

/// Whether a picture holds the bytes of its pixels and no more, as one does that was read
/// in a file, made of just its pixels or scaled down.
pub open spec fn tight(img: image::DynamicImage) -> bool {
    ||| exists|bytes: Seq<u8>| #[trigger] loaded(bytes) == Ok::<image::DynamicImage, Seq<char>>(img)
    ||| exists|width: u32, height: u32, rgba: Seq<u8>|
        img == #[trigger] rgba_image(width, height, rgba) && rgba.len() == width * height * 4
    ||| exists|large: image::DynamicImage, width: u32, height: u32|
        img == #[trigger] thumb(large, width, height)
}

/// Calls `DynamicImage::write_to` with `ImageFormat::Png`, which panics on a picture that
/// holds more bytes than its pixels take. The bytes, or the words of the error, are a
/// function of the picture. Nothing of the pixels is lost: where the file of a picture with
/// four bytes for each pixel can be read at all, for which it must not be too large, it has
/// the same pixels.
#[verifier::external_body]
pub(crate) fn write_png(img: &image::DynamicImage) -> (r: Result<Vec<u8>, String>)
    requires
        tight(*img),
    ensures
        match r {
            Ok(b) => png(*img) matches Ok(t) && t == b@,
            Err(e) => png(*img) matches Err(t) && t == e@,
        },
        keeps_pixels(*img, r),
{
    let mut cursor = std::io::Cursor::new(Vec::new());
    img.write_to(&mut cursor, image::ImageFormat::Png).map_err(|e| e.to_string())?;
    Ok(cursor.into_inner())
}

/// The bytes of the JPEG file that the `image` crate makes of a picture at a quality,
/// or the words of an error.
pub uninterp spec fn jpeg(img: image::DynamicImage, quality: u8) -> Result<Seq<u8>, Seq<char>>;

/// Calls `DynamicImage::to_rgb8`, `JpegEncoder::new_with_quality` and
/// `JpegEncoder::encode_image`. The bytes, or the words of the error, are a function
/// of the picture and the quality.
#[verifier::external_body]
pub(crate) fn write_jpeg(img: &image::DynamicImage, quality: u8) -> (r: Result<Vec<u8>, String>)
    ensures
        match r {
            Ok(b) => jpeg(*img, quality) matches Ok(t) && t == b@,
            Err(e) => jpeg(*img, quality) matches Err(t) && t == e@,
        },
{
    let mut buf = Vec::new();
    let mut encoder = image::codecs::jpeg::JpegEncoder::new_with_quality(&mut buf, quality);
    encoder.encode_image(&img.to_rgb8()).map_err(|e| e.to_string())?;
    Ok(buf)
}

/// What the `image` crate makes of a picture when it scales it down.
pub uninterp spec fn thumb(img: image::DynamicImage, width: u32, height: u32) -> image::DynamicImage;

/// The width and the height of a picture.
pub uninterp spec fn extent(img: image::DynamicImage) -> (u32, u32);

/// Calls `GenericImageView::dimensions`. The size is a function of the picture.
#[verifier::external_body]
fn dimensions(img: &image::DynamicImage) -> (r: (u32, u32))
    ensures
        r == extent(*img),
{
    image::GenericImageView::dimensions(img)
}

/// The number of bytes that a pixel of a picture takes.
pub uninterp spec fn pixel_bytes(img: image::DynamicImage) -> u8;

/// Calls `ColorType::bytes_per_pixel` of the picture's color type. The number is a
/// function of the picture.
#[verifier::external_body]
fn bytes_per_pixel(img: &image::DynamicImage) -> (r: u8)
    ensures
        r == pixel_bytes(*img),
{
    img.color().bytes_per_pixel()
}

/// The number of samples, one for each color and for opacity, in a pixel of a picture.
pub uninterp spec fn pixel_samples(img: image::DynamicImage) -> u8;

/// Calls `ColorType::channel_count` of the picture's color type. The number is a function
/// of the picture.
#[verifier::external_body]
fn channel_count(img: &image::DynamicImage) -> (r: u8)
    ensures
        r == pixel_samples(*img),
{
    img.color().channel_count()
}

/// The largest width and height to which a picture is scaled down.
pub const LARGEST_THUMB: u32 = 4096;

/// Whether a picture that is scaled to fit fills the size along this side: the side `own`
/// fits into `fit`, and the other side into `other_fit`.
pub open spec fn fills(own: int, other: int, fit: int, other_fit: int) -> bool {
    fit * other <= other_fit * own
}

/// The smallest that a side of a picture becomes when the picture is scaled to fit. It is
/// no less than 1, and is what the side becomes where the picture fills the size along it.
pub open spec fn fitted_side(own: int, other: int, fit: int, other_fit: int) -> int {
    if fills(own, other, fit, other_fit) {
        most(fit, 1)
    } else {
        most(own * other_fit / other, 1)
    }
}

/// The longest side that is a number of 24 binary digits, to which places are rounded.
pub const EXACT_SIDE: u32 = 0x100_0000;

/// How many pixels of a side of a picture come together in one, at the most, where it is
/// scaled to fit. Places up to [`EXACT_SIDE`] are off by one at the most, and not at all
/// where the side is cut into equal parts.
pub open spec fn block_side(own: int, other: int, fit: int, other_fit: int) -> int {
    let fitted = fitted_side(own, other, fit, other_fit);
    if own > EXACT_SIDE {
        least(own, own / fitted + 3 + own / 0x10_0000)
    } else if fills(own, other, fit, other_fit) && own % fitted == 0 {
        own / fitted
    } else {
        least(own, own / fitted + 2)
    }
}

/// The largest number in a sample of a picture, of one byte or of two.
pub open spec fn largest_sample(img: image::DynamicImage) -> int {
    if pixel_bytes(img) == pixel_samples(img) {
        0xff
    } else {
        0xffff
    }
}

/// Whether the samples of `n` pixels, and half of `n` to round their mean, have a sum that
/// fits in 32 bits.
pub open spec fn sum_fits(n: int, largest: int) -> bool {
    n * largest + n / 2 <= u32::MAX
}

/// Whether a picture can be scaled down to fit in a size: the samples of all pixels that
/// come together in one can be added in 32 bits.
pub open spec fn scalable(img: image::DynamicImage, width: int, height: int) -> bool {
    let (w, h) = extent(img);
    let block = block_side(w as int, h as int, width, height) * block_side(
        h as int,
        w as int,
        height,
        width,
    );
    sum_fits(block, largest_sample(img))
}

fn find_block_side(own: u32, other: u32, fit: u32, other_fit: u32) -> (r: u32)
    ensures
        r == block_side(own as int, other as int, fit as int, other_fit as int),
{
    proof {
        lemma_product_fits(fit, other);
        lemma_product_fits(other_fit, own);
        assert(own * other_fit == other_fit * own) by (nonlinear_arith);
    }
    let wide: u64 = fit as u64 * other as u64;
    let room: u64 = other_fit as u64 * own as u64;
    let mut fitted: u64 = if wide <= room {
        fit as u64
    } else {
        assert(other > 0) by (nonlinear_arith)
            requires
                fit * other > other_fit * own,
                other_fit >= 0,
                own >= 0,
        ;
        room / other as u64
    };
    if fitted < 1 {
        fitted = 1;
    }
    let slack: u64 = if own > EXACT_SIDE {
        3 + own as u64 / 0x10_0000
    } else if wide <= room && own as u64 % fitted == 0 {
        0
    } else {
        2
    };
    let most_of: u64 = own as u64 / fitted + slack;
    assert(own as u64 / fitted <= own) by (nonlinear_arith)
        requires
            own >= 0,
            fitted >= 1,
    ;
    if (own as u64) <= most_of {
        own
    } else {
        most_of as u32
    }
}

proof fn lemma_product_fits(a: u32, b: u32)
    ensures
        0 <= a * b <= u64::MAX,
{
    assert(0 <= a * b <= 0xffff_ffff * 0xffff_ffff) by (nonlinear_arith)
        requires
            a <= 0xffff_ffff,
            b <= 0xffff_ffff,
    ;
}

/// Tests whether a picture can be scaled down to fit in a size.
pub(crate) fn can_scale(img: &image::DynamicImage, width: u32, height: u32) -> (r: bool)
    ensures
        r == scalable(*img, width as int, height as int),
{
    let (w, h) = dimensions(img);
    let across: u32 = find_block_side(w, h, width, height);
    let down: u32 = find_block_side(h, w, height, width);
    proof {
        lemma_product_fits(across, down);
    }
    let block: u64 = across as u64 * down as u64;
    let largest: u128 = if bytes_per_pixel(img) == channel_count(img) {
        0xff
    } else {
        0xffff
    };
    assert(block * largest <= 0xffff_ffff_ffff_ffff * 0xffff) by (nonlinear_arith)
        requires
            0 <= block <= 0xffff_ffff_ffff_ffff,
            0 <= largest <= 0xffff,
    ;
    block as u128 * largest + block as u128 / 2 <= u32::MAX as u128
}

/// Calls `DynamicImage::thumbnail`, which scales a picture to fit in a size. It panics where
/// that size is too large to hold, and where it adds the samples of so many pixels that
/// their sum does not fit in 32 bits. The result is a function of the picture and the size.
#[verifier::external_body]
pub(crate) fn thumbnail(img: &image::DynamicImage, width: u32, height: u32) -> (r:
    image::DynamicImage)
    requires
        width <= LARGEST_THUMB,
        height <= LARGEST_THUMB,
        scalable(*img, width as int, height as int),
    ensures
        r == thumb(*img, width, height),
{
    img.thumbnail(width, height)
}

/// A picture in rows of pixels from top to bottom, four bytes each: red, green, blue
/// and opacity.
pub struct Bitmap {
    pub width: u32,
    pub height: u32,
    pub rgba: Vec<u8>,
}

impl Bitmap {
    /// Whether all pixels are there.
    pub open spec fn whole(self) -> bool {
        self.width * self.height * 4 <= self.rgba@.len()
    }

    /// Whether all pixels are there, and nothing else.
    pub open spec fn exact(self) -> bool {
        self.width * self.height * 4 == self.rgba@.len()
    }

    /// The byte of a pixel for one of its four parts.
    pub open spec fn byte(self, x: int, y: int, part: int) -> u8 {
        self.rgba@[(y * self.width + x) * 4 + part]
    }
}

/// A picture with these pixels.
pub uninterp spec fn rgba_image(width: u32, height: u32, rgba: Seq<u8>) -> image::DynamicImage;

/// Calls `ImageBuffer::from_raw` and makes a `DynamicImage::ImageRgba8` of it. It takes
/// the size and the bytes as they are, so the picture is a function of them.
#[verifier::external_body]
pub(crate) fn from_rgba(b: Bitmap) -> (r: image::DynamicImage)
    requires
        b.exact(),
    ensures
        r == rgba_image(b.width, b.height, b.rgba@),
{
    let buffer = image::ImageBuffer::from_raw(b.width, b.height, b.rgba);
    image::DynamicImage::ImageRgba8(buffer.expect("the buffer holds all pixels"))
}

/// The width, the height and the pixels that the `image` crate makes of a picture.
pub uninterp spec fn pixels(img: image::DynamicImage) -> (u32, u32, Seq<u8>);

/// Calls `DynamicImage::to_rgba8`. The pixels are a function of the picture, and
/// they are all there.
#[verifier::external_body]
pub(crate) fn to_rgba(img: &image::DynamicImage) -> (r: Bitmap)
    ensures
        (r.width, r.height, r.rgba@) == pixels(*img),
        r.whole(),
{
    let buffer = img.to_rgba8();
    Bitmap { width: buffer.width(), height: buffer.height(), rgba: buffer.into_raw() }
}

// ---- places of pixels ----

/// A pixel inside a picture has all its bytes inside it.
pub proof fn lemma_pixel_inside(x: int, y: int, width: int, height: int)
    requires
        0 <= x < width,
        0 <= y < height,
    ensures
        0 <= y * width + x,
        (y * width + x) * 4 + 4 <= width * height * 4,
{
    assert(y * width + x + 1 <= width * height) by (nonlinear_arith)
        requires
            0 <= x < width,
            0 <= y < height,
    ;
    assert(0 <= y * width) by (nonlinear_arith)
        requires
            0 <= y,
            0 < width,
    ;
}

/// The place of a byte tells its pixel.
pub proof fn lemma_pixel_of_byte(x: int, y: int, part: int, width: int)
    requires
        0 <= x < width,
        0 <= y,
        0 <= part < 4,
    ensures
        ({
            let i = (y * width + x) * 4 + part;
            i % 4 == part && i / 4 % width == x && i / 4 / width == y
        }),
{
    let i = (y * width + x) * 4 + part;
    assert(i / 4 == y * width + x);
    vstd::arithmetic::div_mod::lemma_fundamental_div_mod_converse(y * width + x, width, y, x);
}

/// The sum of the samples of `n` pixels, with half of `n` to round it, fits if it is below four
/// gibi; a sample is at most 255 in one byte and 65535 in two.
pub proof fn law_sums(img: image::DynamicImage, n: int, largest: int)
    ensures
        sum_fits(n, largest) <==> n * largest + n / 2 < 4 * 1024 * 1024 * 1024,
        pixel_bytes(img) == pixel_samples(img) ==> largest_sample(img) == 255,
        pixel_bytes(img) != pixel_samples(img) ==> largest_sample(img) == 256 * 256 - 1,
{
}

/// So many pixels of a side come together in one that the picture is covered, and never more than
/// there are.
pub proof fn law_blocks_cover(own: int, other: int, fit: int, other_fit: int)
    requires
        own >= 0,
        fit >= 1,
        other_fit >= 1,
        other >= 0,
    ensures
        ({
            let fitted = fitted_side(own, other, fit, other_fit);
            let block = block_side(own, other, fit, other_fit);
            &&& fitted >= 1
            &&& block <= own
            &&& block * fitted >= own
        }),
{
    let fitted = fitted_side(own, other, fit, other_fit);
    let block = block_side(own, other, fit, other_fit);
    let q = own / fitted;
    vstd::arithmetic::div_mod::lemma_fundamental_div_mod(own, fitted);
    vstd::arithmetic::div_mod::lemma_mod_bound(own, fitted);
    assert(0 <= q <= own && own < (q + 1) * fitted) by (nonlinear_arith)
        requires
            own == fitted * q + own % fitted,
            0 <= own % fitted < fitted,
            own >= 0,
            fitted >= 1,
    ;
    if block == own {
        assert(own * fitted >= own) by (nonlinear_arith)
            requires
                own >= 0,
                fitted >= 1,
        ;
    } else if block == q {
        assert(q * fitted == own) by (nonlinear_arith)
            requires
                own == fitted * q + own % fitted,
                own % fitted == 0,
        ;
    } else {
        assert(block >= q + 1);
        assert(block * fitted >= own) by (nonlinear_arith)
            requires
                block >= q + 1,
                own < (q + 1) * fitted,
                fitted >= 1,
        ;
    }
}

} // verus!
