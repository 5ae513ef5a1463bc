//! Preparing a decoded image for submission: scaling down what came from an
//! input over the service's limit, encoding as JPEG, and writing the result
//! as text that a form field can carry.
use vstd::prelude::*;
use vstd::string::*;
use image::DynamicImage;
use crate::error::{Failure, VerifierError};
use crate::escape::{
    escape_of, escaped, field_safe, percent_escape, percent_free, percent_marks_escape, unescaped,
};
use crate::scale::{lemma_scaled_exists, scaled, target_size, SERVICE_LIMIT};
use vstd::arithmetic::div_mod::{lemma_div_is_ordered, lemma_div_multiples_vanish};

verus! {

/// `image::DynamicImage`, a decoded image. Verified code carries it from one
/// call to the next and sees nothing inside it.
#[verifier::external_type_specification]
#[verifier::external_body]
pub struct ExDynamicImage(image::DynamicImage);

/// How the samples of a pixel are laid out.
pub enum PixelLayout {
    Gray,
    GrayAlpha,
    Rgb,
    Rgba,
    Bgr,
    Bgra,
}

/// What an image holds: its size in pixels, the layout of a pixel, and the
/// samples of all pixels, row by row.
pub struct Raster {
    pub width: u32,
    pub height: u32,
    pub layout: PixelLayout,
    pub samples: Seq<u8>,
}

/// What a decoded image holds.
pub uninterp spec fn raster_of(img: DynamicImage) -> Raster;

/// The image resampled with the Catmull-Rom filter to the greatest size of
/// its own aspect ratio that fits into `width` by `height`.
pub uninterp spec fn resampled(raster: Raster, width: u32, height: u32) -> Raster;

/// The greatest size of the aspect ratio of `width` by `height` that fits
/// into `bound_width` by `bound_height`: one side takes its bound, the other
/// is scaled with it and rounded down.
pub open spec fn fit_within(width: u32, height: u32, bound_width: u32, bound_height: u32) -> (
    int,
    int,
) {
    if bound_width as int * height as int <= width as int * bound_height as int {
        (bound_width as int, height as int * bound_width as int / width as int)
    } else {
        (width as int * bound_height as int / height as int, bound_height as int)
    }
}

/// The fitted size is within the bounds.
pub proof fn lemma_fit_within_bounds(width: u32, height: u32, bound_width: u32, bound_height: u32)
    requires
        width > 0,
        height > 0,
    ensures
        0 <= fit_within(width, height, bound_width, bound_height).0 <= bound_width,
        0 <= fit_within(width, height, bound_width, bound_height).1 <= bound_height,
{
    let w = width as int;
    let h = height as int;
    let bw = bound_width as int;
    let bh = bound_height as int;
    assert(0 <= bw * h && 0 <= w * bh && 0 <= h * bw) by (nonlinear_arith)
        requires
            0 <= w,
            0 <= h,
            0 <= bw,
            0 <= bh,
    ;
    assert(h * bw == bw * h && w * bh == bh * w) by (nonlinear_arith);
    if bw * h <= w * bh {
        lemma_div_is_ordered(h * bw, w * bh, w);
        lemma_div_multiples_vanish(bh, w);
        lemma_div_is_ordered(0, h * bw, w);
    } else {
        lemma_div_is_ordered(w * bh, bw * h, h);
        lemma_div_multiples_vanish(bw, h);
        lemma_div_is_ordered(0, w * bh, h);
    }
}

/// The JPEG encoding of an image, or the encoder's message.
pub uninterp spec fn jpeg_of(raster: Raster) -> Result<Seq<u8>, Seq<char>>;

/// The base64 text of a byte string, in the standard alphabet with padding.
pub uninterp spec fn base64_text(bytes: Seq<u8>) -> Seq<char>;

/// A character of the standard base64 alphabet, or the padding character.
pub open spec fn is_base64_char(c: char) -> bool {
    ('A' <= c && c <= 'Z') || ('a' <= c && c <= 'z') || ('0' <= c && c <= '9') || c == '+' || c
        == '/' || c == '='
}

/// Every character is of the base64 alphabet or the padding character.
pub open spec fn base64_alphabet(s: Seq<char>) -> bool {
    forall|i: int| 0 <= i < s.len() ==> is_base64_char(#[trigger] s[i])
}

/// The base64 text of so many bytes has a length that fits the machine.
pub open spec fn fits_base64(len: nat) -> bool {
    len / 3 * 4 + 4 <= usize::MAX
}

/// `GenericImageView::width` of image, on a decoded image: its width in
/// pixels.
#[verifier::external_body]
pub(crate) fn image_width(img: &DynamicImage) -> (w: u32)
    ensures
        w == raster_of(*img).width,
{
    image::GenericImageView::width(img)
}

/// `GenericImageView::height` of image, on a decoded image: its height in
/// pixels.
#[verifier::external_body]
pub(crate) fn image_height(img: &DynamicImage) -> (h: u32)
    ensures
        h == raster_of(*img).height,
{
    image::GenericImageView::height(img)
}

/// `DynamicImage::resize` of image with the Catmull-Rom filter. The contract
/// names what the new image holds as a function of what the old one holds
/// and of the bounds, and states its size: the method computes it in
/// integers as the greatest size of the image's aspect ratio within the
/// bounds. It divides by the image's width or height, so neither may be zero.
#[verifier::external_body]
pub(crate) fn resize_image(img: &DynamicImage, width: u32, height: u32) -> (r: DynamicImage)
    requires
        raster_of(*img).width > 0,
        raster_of(*img).height > 0,
    ensures
        raster_of(r) == resampled(raster_of(*img), width, height),
        raster_of(r).width == fit_within(
            raster_of(*img).width,
            raster_of(*img).height,
            width,
            height,
        ).0,
        raster_of(r).height == fit_within(
            raster_of(*img).width,
            raster_of(*img).height,
            width,
            height,
        ).1,
{
    img.resize(width, height, image::FilterType::CatmullRom)
}

/// `JPEGEncoder::new` and `encode` of image, on the image's raw pixels and
/// colour type and on its size: the encoded bytes, or the text of the error.
/// The contract names the result as a function of what the image holds.
#[verifier::external_body]
pub(crate) fn encode_jpeg(img: &DynamicImage, width: u32, height: u32) -> (r: Result<
    Vec<u8>,
    String,
>)
    requires
        width == raster_of(*img).width,
        height == raster_of(*img).height,
    ensures
        match r {
            Ok(bytes) => jpeg_of(raster_of(*img)) == Ok::<Seq<u8>, Seq<char>>(bytes@),
            Err(e) => jpeg_of(raster_of(*img)) == Err::<Seq<u8>, Seq<char>>(e@),
        },
{
    let mut out = Vec::new();
    let mut encoder = image::jpeg::JPEGEncoder::new(&mut out);
    match encoder.encode(&img.raw_pixels(), width, height, img.color()) {
        Ok(()) => Ok(out),
        Err(e) => Err(e.to_string()),
    }
}

/// `base64::encode`: the base64 text of `bytes`, which the contract names and
/// of which it says that every character is of the standard alphabet or the
/// padding character. The function panics where the text's length does not
/// fit the machine.
#[verifier::external_body]
pub(crate) fn base64_of(bytes: &[u8]) -> (r: String)
    requires
        fits_base64(bytes@.len()),
    ensures
        r@ == base64_text(bytes@),
        base64_alphabet(r@),
{
    base64::encode(bytes)
}

/// A text of the base64 alphabet has no `%`.
pub proof fn lemma_base64_percent_free(s: Seq<char>)
    requires
        base64_alphabet(s),
    ensures
        percent_free(s),
{
    assert forall|i: int| 0 <= i < s.len() implies #[trigger] s[i] != '%' by {
        assert(is_base64_char(s[i]));
    }
}

/// A character of a payload text: a letter, a digit, or `%`.
pub open spec fn is_payload_char(c: char) -> bool {
    ('A' <= c && c <= 'Z') || ('a' <= c && c <= 'z') || ('0' <= c && c <= '9') || c == '%'
}

/// Every character is a letter, a digit, or `%`: the text can stand in a
/// form field as it is.
pub open spec fn payload_alphabet(s: Seq<char>) -> bool {
    forall|i: int| 0 <= i < s.len() ==> is_payload_char(#[trigger] s[i])
}

/// Escaping a text of the base64 alphabet leaves letters, digits and `%`.
pub proof fn lemma_escaped_base64_alphabet(s: Seq<char>)
    requires
        base64_alphabet(s),
    ensures
        payload_alphabet(escaped(s)),
    decreases s.len(),
{
    if s.len() > 0 {
        let rest = s.drop_first();
        assert(base64_alphabet(rest)) by {
            assert forall|i: int| 0 <= i < rest.len() implies is_base64_char(#[trigger] rest[i]) by {
                assert(rest[i] == s[i + 1]);
            }
        }
        lemma_escaped_base64_alphabet(rest);
        let head = escape_of(s[0]);
        let tail = escaped(rest);
        assert(is_base64_char(s[0]));
        assert forall|i: int| 0 <= i < escaped(s).len() implies is_payload_char(
            #[trigger] escaped(s)[i],
        ) by {
            if i >= head.len() {
                assert(escaped(s)[i] == tail[i - head.len()]);
            }
        }
    }
}

/// The text that carries an encoded image in a form field: its base64 text
/// with `=`, `+` and `/` escaped.
pub open spec fn payload_text(jpeg: Seq<u8>) -> Seq<char> {
    escaped(base64_text(jpeg))
}

/// Writes an encoded image as text that a form field can carry.
pub fn payload(jpeg: &[u8]) -> (r: String)
    requires
        fits_base64(jpeg@.len()),
    ensures
        r@ == payload_text(jpeg@),
        unescaped(r@) == base64_text(jpeg@),
        payload_alphabet(r@),
        field_safe(r@),
        percent_marks_escape(r@),
{
    let text = base64_of(jpeg);
    proof {
        lemma_base64_percent_free(text@);
        lemma_escaped_base64_alphabet(text@);
    }
    percent_escape(text.as_str())
}

/// What is encoded: an input over the limit has both dimensions of its
/// image divided by the scale and the image resampled to fit them; an input
/// within the limit keeps its image, and so does an image without pixels.
pub open spec fn fitted(raster: Raster, len: nat) -> Raster {
    if len > SERVICE_LIMIT && raster.width > 0 && raster.height > 0 {
        resampled(
            raster,
            scaled(raster.width as nat, len) as u32,
            scaled(raster.height as nat, len) as u32,
        )
    } else {
        raster
    }
}

/// The message of the failure to write an encoded image as text.
pub open spec fn oversize_message() -> Seq<char> {
    "encoded image is too large to be written as text"@
}

/// The size that is asked of what is encoded: of an image from an input over
/// the limit, the greatest size of its aspect ratio within both dimensions
/// divided by the scale; of every other image, its own size.
pub open spec fn fitted_size(raster: Raster, len: nat) -> (int, int) {
    if len > SERVICE_LIMIT && raster.width > 0 && raster.height > 0 {
        fit_within(
            raster.width,
            raster.height,
            scaled(raster.width as nat, len) as u32,
            scaled(raster.height as nat, len) as u32,
        )
    } else {
        (raster.width as int, raster.height as int)
    }
}

/// The JPEG bytes that are submitted for an image from an input of `len`
/// bytes, or the failure.
pub open spec fn encoded(raster: Raster, len: nat) -> Result<Seq<u8>, Failure> {
    match jpeg_of(fitted(raster, len)) {
        Err(m) => Err(Failure::JpegEncodeError(m)),
        Ok(jpeg) => Ok(jpeg),
    }
}

/// What preparing an image from an input of `len` bytes gives: the payload
/// text of the JPEG bytes, or the failure.
pub open spec fn prepared(raster: Raster, len: nat) -> Result<Seq<char>, Failure> {
    match encoded(raster, len) {
        Err(f) => Err(f),
        Ok(jpeg) => if fits_base64(jpeg.len()) {
            Ok(payload_text(jpeg))
        } else {
            Err(Failure::JpegEncodeError(oversize_message()))
        },
    }
}

/// An image from an input within the limit, of exactly the limit too, is
/// submitted as it is: what is encoded is the image itself.
pub proof fn lemma_within_limit_keeps_image(raster: Raster, len: nat)
    requires
        len <= SERVICE_LIMIT,
    ensures
        fitted(raster, len) == raster,
        fitted_size(raster, len) == (raster.width as int, raster.height as int),
        jpeg_of(raster) matches Ok(jpeg) ==> encoded(raster, len) == Ok::<Seq<u8>, Failure>(jpeg),
{
}

/// An image from an input over the limit, by one byte too, is resampled to
/// fit both dimensions divided by the scale; these are smaller than the
/// image's own, and so is the size that is asked of the result.
pub proof fn lemma_over_limit_resamples(raster: Raster, len: nat)
    requires
        len > SERVICE_LIMIT,
        raster.width > 0,
        raster.height > 0,
    ensures
        ({
            let width = scaled(raster.width as nat, len);
            let height = scaled(raster.height as nat, len);
            &&& width < raster.width
            &&& height < raster.height
            &&& fitted(raster, len) == resampled(raster, width as u32, height as u32)
            &&& 0 <= fitted_size(raster, len).0 <= width
            &&& 0 <= fitted_size(raster, len).1 <= height
        }),
{
    lemma_scaled_exists(raster.width as nat, len);
    lemma_scaled_exists(raster.height as nat, len);
    lemma_fit_within_bounds(
        raster.width,
        raster.height,
        scaled(raster.width as nat, len) as u32,
        scaled(raster.height as nat, len) as u32,
    );
}

/// The failure when the input could not be decoded as an image.
pub fn image_failed(message: String) -> (e: VerifierError)
    ensures
        e@ == Failure::ImageDataError(message@),
{
    VerifierError::ImageDataError(message)
}

/// Scales the image down if the input that it came from, of `len` bytes, is
/// over the limit.
pub(crate) fn fit_image(img: DynamicImage, len: usize) -> (r: DynamicImage)
    ensures
        raster_of(r) == fitted(raster_of(img), len as nat),
        raster_of(r).width == fitted_size(raster_of(img), len as nat).0,
        raster_of(r).height == fitted_size(raster_of(img), len as nat).1,
{
    let w = image_width(&img);
    let h = image_height(&img);
    match target_size(len, w, h) {
        Some((target_width, target_height)) => {
            if w > 0 && h > 0 {
                resize_image(&img, target_width, target_height)
            } else {
                img
            }
        },
        None => img,
    }
}

/// Prepares a decoded image for submission: scales it down if the input that
/// it came from, of `len` bytes, is over the limit, encodes it as JPEG and
/// writes the result as base64 text with `=`, `+` and `/` escaped.
pub fn prepare_image(img: DynamicImage, len: usize) -> (r: Result<String, VerifierError>)
    ensures
        match r {
            Ok(text) => {
                &&& prepared(raster_of(img), len as nat) == Ok::<Seq<char>, Failure>(text@)
                &&& encoded(raster_of(img), len as nat) matches Ok(jpeg) && unescaped(text@)
                    == base64_text(jpeg)
                &&& payload_alphabet(text@)
                &&& field_safe(text@)
                &&& percent_marks_escape(text@)
            },
            Err(e) => prepared(raster_of(img), len as nat) == Err::<Seq<char>, Failure>(e@),
        },
        fitted(raster_of(img), len as nat).width == fitted_size(raster_of(img), len as nat).0,
        fitted(raster_of(img), len as nat).height == fitted_size(raster_of(img), len as nat).1,
{
    let img = fit_image(img, len);
    let width = image_width(&img);
    let height = image_height(&img);
    let jpeg = match encode_jpeg(&img, width, height) {
        Ok(jpeg) => jpeg,
        Err(m) => {
            return Err(VerifierError::JpegEncodeError(m));
        },
    };
    if jpeg.len() / 3 > (usize::MAX - 4) / 4 {
        return Err(
            VerifierError::JpegEncodeError(
                "encoded image is too large to be written as text".to_owned(),
            ),
        );
    }
    Ok(payload(jpeg.as_slice()))
}

} // verus!
