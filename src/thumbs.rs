use vstd::prelude::*;

use crate::error::Error;

verus! {

/// `image::DynamicImage`, carried through the library as an opaque value.
#[verifier::external_type_specification]
#[verifier::external_body]
pub struct ExDynamicImage(image::DynamicImage);

/// The length, in pixels, of a thumbnail's longer side.
pub const THUMBNAIL_SIDE: u32 = 400;

/// A crop region in whole source pixels: the caller's fractional
/// rectangle with its fractions cut off.
#[derive(Debug, Clone, Copy, PartialEq, Eq)]
pub struct ImageRectangle {
    pub x: u32,
    pub y: u32,
    pub width: u32,
    pub height: u32,
}

/// Decoded pixels together with their dimensions.
pub struct Picture {
    pixels: image::DynamicImage,
    width: u32,
    height: u32,
}

impl View for Picture {
    /// Width and height in pixels.
    type V = (nat, nat);

    closed spec fn view(&self) -> (nat, nat) {
        (self.width as nat, self.height as nat)
    }
}

impl Picture {
    /// Width in pixels.
    pub fn width(&self) -> (r: u32)
        ensures
            r as nat == self@.0,
    {
        self.width
    }

    /// Height in pixels.
    pub fn height(&self) -> (r: u32)
        ensures
            r as nat == self@.1,
    {
        self.height
    }

    /// The pixels, for encoding and storing.
    pub fn pixels(&self) -> &image::DynamicImage {
        &self.pixels
    }
}

/// The rectangle lies inside an image of the given dimensions.
pub open spec fn crop_fits(rect: ImageRectangle, width: nat, height: nat) -> bool {
    rect.x + rect.width <= width && rect.y + rect.height <= height
}

/// Thumbnail dimensions for a `width` × `height` source: the longer side
/// becomes 400 pixels and the other keeps the aspect ratio, truncated.
/// A square source counts as tall.
pub open spec fn thumbnail_size_of(width: nat, height: nat) -> (nat, nat) {
    if width > height {
        (400, height * 400 / width)
    } else if height == 0 {
        (0, 400)
    } else {
        (width * 400 / height, 400)
    }
}

/// The dimensions of the thumbnail that `thumbnail_of` makes from a picture
/// of the given dimensions, or `None` where it refuses the crop.
pub open spec fn derived_size(width: nat, height: nat, crop: Option<ImageRectangle>) -> Option<
    (nat, nat),
> {
    let (w, h) = match crop {
        Some(rect) => (rect.width as nat, rect.height as nat),
        None => (width, height),
    };
    if crop matches Some(rect) && !crop_fits(rect, width, height) {
        None
    } else if w == 0 || h == 0 {
        None
    } else {
        Some(thumbnail_size_of(w, h))
    }
}

/// The width and height of the image that `bytes` decode to, or `None`
/// where they do not decode.
pub uninterp spec fn decoded_size(bytes: Seq<u8>) -> Option<(nat, nat)>;

/// Relies on `image::load_from_memory`: decodes bytes of a format that it
/// recognises from their content, the result depending on the bytes alone;
/// `width`/`height` read the result's size.
#[verifier::external_body]
fn decode(bytes: &[u8]) -> (r: Option<Picture>)
    ensures
        match r {
            Some(p) => decoded_size(bytes@) == Some(p@),
            None => decoded_size(bytes@) is None,
        },
{
    match image::load_from_memory(bytes) {
        Ok(img) => Some(Picture { width: img.width(), height: img.height(), pixels: img }),
        Err(_) => None,
    }
}

/// Relies on `image::DynamicImage::crop_imm`: for a rectangle inside the
/// image the cut-out is exactly the rectangle's size.
#[verifier::external_body]
fn crop(p: &Picture, rect: &ImageRectangle) -> (r: Picture)
    requires
        crop_fits(*rect, p@.0, p@.1),
    ensures
        r@ == (rect.width as nat, rect.height as nat),
{
    let img = p.pixels.crop_imm(rect.x, rect.y, rect.width, rect.height);
    Picture { width: img.width(), height: img.height(), pixels: img }
}

/// Relies on `image::imageops::resize` with the Lanczos3 filter: the result
/// has exactly the requested dimensions. A source without pixels is left
/// out, since the sampler then indexes outside it.
#[verifier::external_body]
fn resize(p: &Picture, width: u32, height: u32) -> (r: Picture)
    requires
        p@.0 > 0,
        p@.1 > 0,
    ensures
        r@ == (width as nat, height as nat),
{
    let buf = image::imageops::resize(
        &p.pixels,
        width,
        height,
        image::imageops::FilterType::Lanczos3,
    );
    Picture { width: buf.width(), height: buf.height(), pixels: image::DynamicImage::ImageRgba8(buf) }
}

/// Whether the rectangle lies inside a `width` × `height` image.
pub fn rectangle_fits(rect: &ImageRectangle, width: u32, height: u32) -> (r: bool)
    ensures
        r == crop_fits(*rect, width as nat, height as nat),
{
    (rect.x as u64) + (rect.width as u64) <= width as u64 && (rect.y as u64) + (
    rect.height as u64) <= height as u64
}

proof fn lemma_scaled_at_most_side(short: int, long: int)
    requires
        0 <= short <= long,
        long > 0,
    ensures
        short * 400 / long <= 400,
        short * 400 / long >= 0,
{
    assert(short * 400 <= long * 400) by (nonlinear_arith)
        requires
            short <= long,
    ;
    vstd::arithmetic::div_mod::lemma_div_is_ordered(short * 400, long * 400, long);
    vstd::arithmetic::div_mod::lemma_div_multiples_vanish(400, long);
    vstd::arithmetic::div_mod::lemma_div_pos_is_pos(short * 400, long);
}

/// Thumbnail dimensions for a `width` × `height` source: the longer side is
/// 400 pixels, the shorter is scaled by the same factor and truncated.
pub fn thumbnail_size(width: u32, height: u32) -> (r: (u32, u32))
    ensures
        (r.0 as nat, r.1 as nat) == thumbnail_size_of(width as nat, height as nat),
{
    if width > height {
        let h = (height as u64) * 400 / (width as u64);
        proof {
            lemma_scaled_at_most_side(height as int, width as int);
        }
        (THUMBNAIL_SIDE, h as u32)
    } else if height == 0 {
        (0, THUMBNAIL_SIDE)
    } else {
        let w = (width as u64) * 400 / (height as u64);
        proof {
            lemma_scaled_at_most_side(width as int, height as int);
        }
        (w as u32, THUMBNAIL_SIDE)
    }
}

/// Crops `picture` to `crop_rect` when one is given and scales the result so
/// that its longer side is 400 pixels. A rectangle that leaves the image, or
/// an image with no pixels to scale, is refused with `CropOutOfBounds`.
pub fn thumbnail_of(picture: &Picture, crop_rect: Option<ImageRectangle>) -> (r: Result<
    Picture,
    Error,
>)
    ensures
        match derived_size(picture@.0, picture@.1, crop_rect) {
            None => r == Err::<Picture, Error>(Error::CropOutOfBounds),
            Some(size) => r matches Ok(t) && t@ == size,
        },
{
    let cropped;
    let source = match crop_rect {
        Some(rect) => {
            if !rectangle_fits(&rect, picture.width(), picture.height()) {
                return Err(Error::CropOutOfBounds);
            }
            cropped = crop(picture, &rect);
            &cropped
        },
        None => picture,
    };
    if source.width() == 0 || source.height() == 0 {
        return Err(Error::CropOutOfBounds);
    }
    let (w, h) = thumbnail_size(source.width(), source.height());
    Ok(resize(source, w, h))
}

/// Decodes an original image and derives its thumbnail, as `thumbnail_of`
/// does; bytes that do not decode give `ImageDecode`.
pub fn make_thumbnail(original: &[u8], crop_rect: Option<ImageRectangle>) -> (r: Result<
    Picture,
    Error,
>)
    ensures
        match decoded_size(original@) {
            None => r == Err::<Picture, Error>(Error::ImageDecode),
            Some((w, h)) => match derived_size(w, h, crop_rect) {
                None => r == Err::<Picture, Error>(Error::CropOutOfBounds),
                Some(size) => r matches Ok(t) && t@ == size,
            },
        },
{
    match decode(original) {
        None => Err(Error::ImageDecode),
        Some(picture) => thumbnail_of(&picture, crop_rect),
    }
}

} // verus!
