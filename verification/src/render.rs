use vstd::prelude::*;

use crate::code::QRCode;
use crate::encode;
use crate::encode::anchor_light;
use crate::grid::dim_of_version;
use crate::types::QRBit;
use crate::types::QRError;

verus! {

/// A grayscale image of a code: one 8-bit luminance sample per module. The
/// pixel buffer of the outside image crate sits in a private field that the
/// verifier does not look into; the two names below say what it holds.
#[verifier::external_body]
pub struct QRImage {
    buffer: image::GrayImage,
}

/// What a grayscale pixel buffer holds: the luminance sample at each in-range
/// coordinate.
pub uninterp spec fn image_pixels(img: QRImage) -> Map<(u32, u32), u8>;

/// The width and height a grayscale pixel buffer was made with.
pub uninterp spec fn image_dims(img: QRImage) -> (u32, u32);

/// Relies on image::ImageBuffer::new: the returned buffer has the given
/// width and height and every sample is zero. It panics only when the byte
/// length overflows usize, which the bound below rules out.
#[verifier::external_body]
fn gray_image_new(width: u32, height: u32) -> (img: QRImage)
    requires
        width as int * height as int <= usize::MAX as int,
    ensures
        image_dims(img) == (width, height),
        forall|x: u32, y: u32| #![trigger image_pixels(img).contains_key((x, y))]
            x < width && y < height ==> image_pixels(img).contains_key((x, y)) && image_pixels(
                img,
            )[(x, y)] == 0u8,
{
    QRImage { buffer: image::GrayImage::new(width, height) }
}

/// Relies on image::ImageBuffer::put_pixel: it overwrites the sample at
/// `(x, y)` and leaves every other sample as it was. It panics out of
/// bounds, so the bounds are required here.
#[verifier::external_body]
fn gray_image_put(img: &mut QRImage, x: u32, y: u32, luma: u8)
    requires
        x < image_dims(*old(img)).0,
        y < image_dims(*old(img)).1,
    ensures
        image_dims(*final(img)) == image_dims(*old(img)),
        image_pixels(*final(img)) == image_pixels(*old(img)).insert((x, y), luma),
{
    img.buffer.put_pixel(x, y, image::Luma([luma]));
}

impl QRImage {
    /// Relies on image::ImageBuffer::width: the width the buffer was made
    /// with.
    #[verifier::external_body]
    pub fn width(&self) -> (w: u32)
        ensures
            w == image_dims(*self).0,
    {
        self.buffer.width()
    }

    /// Relies on image::ImageBuffer::height: the height the buffer was made
    /// with.
    #[verifier::external_body]
    pub fn height(&self) -> (h: u32)
        ensures
            h == image_dims(*self).1,
    {
        self.buffer.height()
    }

    /// Relies on image::ImageBuffer::into_raw: the underlying raw buffer, one
    /// byte per pixel, packed row by row from the top-left corner.
    #[verifier::external_body]
    pub fn into_raw(self) -> (raw: Vec<u8>)
        ensures
            raw@.len() == image_dims(self).0 as int * image_dims(self).1 as int,
            forall|x: u32, y: u32| #![trigger image_pixels(self).contains_key((x, y))]
                x < image_dims(self).0 && y < image_dims(self).1 && image_pixels(
                    self,
                ).contains_key((x, y)) ==> raw@[y as int * image_dims(self).0 as int + x as int]
                    == image_pixels(self)[(x, y)],
    {
        self.buffer.into_raw()
    }
}

/// The luminance a module rasterizes to: maximum for a light module, minimum
/// for a dark one.
pub open spec fn luma_of(bit: QRBit) -> u8 {
    if bit is Light {
        255u8
    } else {
        0u8
    }
}

/// Generates a grayscale image of a [`QRCode`]: one pixel per module, white
/// where the module is light and black where it is dark.
pub fn generate_image(code: QRCode) -> (img: QRImage)
    requires
        code.wf(),
    ensures
        image_dims(img).0 as int == code.width(),
        image_dims(img).1 as int == code.height(),
        forall|x: u32, y: u32| #![trigger image_pixels(img).contains_key((x, y))]
            code.spec_in_bounds(x as int, y as int) ==> image_pixels(img).contains_key((x, y))
                && image_pixels(img)[(x, y)] == luma_of(code.at(x as int, y as int)),
{
    let d = code.dimensions();
    let width: u32 = d.0;
    let height: u32 = d.1;
    proof {
        assert(width as int * height as int <= 177 * 177) by (nonlinear_arith)
            requires
                width <= 177,
                height <= 177,
        ;
    }
    let mut img = gray_image_new(width, height);
    let mut x: u32 = 0;
    while x < width
        invariant
            x <= width,
            code.wf(),
            code.width() == width as int,
            code.height() == height as int,
            image_dims(img) == (width, height),
            forall|a: u32, b: u32| #![trigger image_pixels(img).contains_key((a, b))]
                a < width && b < height && a < x ==> image_pixels(img).contains_key((a, b))
                    && image_pixels(img)[(a, b)] == luma_of(code.at(a as int, b as int)),
            forall|a: u32, b: u32| #![trigger image_pixels(img).contains_key((a, b))]
                a < width && b < height && a >= x ==> image_pixels(img).contains_key((a, b))
                    && image_pixels(img)[(a, b)] == 0u8,
        decreases width - x,
    {
        let mut y: u32 = 0;
        while y < height
            invariant
                x < width,
                y <= height,
                code.wf(),
                code.width() == width as int,
                code.height() == height as int,
                image_dims(img) == (width, height),
                forall|a: u32, b: u32| #![trigger image_pixels(img).contains_key((a, b))]
                    a < width && b < height && (a < x || (a == x && b < y)) ==> image_pixels(
                        img,
                    ).contains_key((a, b)) && image_pixels(img)[(a, b)] == luma_of(
                        code.at(a as int, b as int),
                    ),
                forall|a: u32, b: u32| #![trigger image_pixels(img).contains_key((a, b))]
                    a < width && b < height && !(a < x || (a == x && b < y)) ==> image_pixels(
                        img,
                    ).contains_key((a, b)) && image_pixels(img)[(a, b)] == 0u8,
            decreases height - y,
        {
            let luma: u8 = match code.get(x, y) {
                Ok(bit) => bit.as_type(255u8, 0u8),
                Err(_) => {
                    proof {
                        assert(false);
                    }
                    0u8
                },
            };
            let ghost pre: Map<(u32, u32), u8> = image_pixels(img);
            gray_image_put(&mut img, x, y, luma);
            proof {
                assert forall|a: u32, b: u32|
                    a < width && b < height && (a < x || (a == x && b < y + 1))
                        implies image_pixels(img).contains_key((a, b)) && image_pixels(img)[(a, b)]
                        == luma_of(code.at(a as int, b as int)) by {
                    if !(a == x && b == y) {
                        assert(pre.contains_key((a, b)));
                        assert(image_pixels(img)[(a, b)] == pre[(a, b)]);
                    }
                }
                assert forall|a: u32, b: u32|
                    a < width && b < height && !(a < x || (a == x && b < y + 1))
                        implies image_pixels(img).contains_key((a, b)) && image_pixels(img)[(a, b)]
                        == 0u8 by {
                    assert(pre.contains_key((a, b)));
                    assert(image_pixels(img)[(a, b)] == pre[(a, b)]);
                }
            }
            y = y + 1;
        }
        proof {
            assert forall|a: u32, b: u32|
                a < width && b < height && a < x + 1 implies image_pixels(img).contains_key(
                    (a, b),
                ) && image_pixels(img)[(a, b)] == luma_of(code.at(a as int, b as int)) by {
                assert(a < x || (a == x && b < height));
            }
        }
        x = x + 1;
    }
    img
}

/// Encodes the `message` as a [`QRCode`] of the given `version`, then
/// rasterizes it into a grayscale image: anchor cells are white, every other
/// cell black. Versions outside 1 through 40 are rejected.
pub fn as_image(message: &[u8], version: u32) -> (r: Result<QRImage, QRError>)
    ensures
        (1 <= version <= 40) <==> r is Ok,
        r is Ok ==> ({
            let img = r->Ok_0;
            let dim = dim_of_version(version);
            &&& image_dims(img).0 as int == dim
            &&& image_dims(img).1 as int == dim
            &&& forall|x: u32, y: u32| #![trigger image_pixels(img).contains_key((x, y))]
                (x as int) < dim && (y as int) < dim ==> image_pixels(img).contains_key((x, y))
                    && image_pixels(img)[(x, y)] == (if anchor_light(
                    dim,
                    dim,
                    x as int,
                    y as int,
                ) {
                    255u8
                } else {
                    0u8
                })
        }),
        r is Err ==> r->Err_0 == QRError::InvalidVersion,
{
    let qr_data = encode::generate(message, version)?;
    Ok(generate_image(qr_data))
}

} // verus!
