//! Icon scaling and the cached-thumbnail responses: a source image is decoded,
//! resized to fit a configured square, and re-encoded as PNG; a cache of
//! previously scaled thumbnails is served verbatim.
use vstd::prelude::*;

use crate::services::{opt_bytes, HttpResponse};

verus! {

#[verifier::external_type_specification]
#[verifier::external_body]
pub struct ExDynamicImage(image::DynamicImage);

#[verifier::external_type_specification]
#[verifier::external_body]
pub struct ExImageError(image::error::ImageError);

/// Name for what `image::load_from_memory` returns: the decoded image, or
/// the error, as a function of the bytes alone.
pub uninterp spec fn image_decoding_of(data: Seq<u8>) -> Result<
    image::DynamicImage,
    image::error::ImageError,
>;

/// Whether `data` decodes as an image.
pub open spec fn image_decodes(data: Seq<u8>) -> bool {
    image_decoding_of(data) is Ok
}

/// Name for what `DynamicImage::width` returns, in pixels.
pub uninterp spec fn image_width_of(img: image::DynamicImage) -> nat;

/// Name for what `DynamicImage::height` returns, in pixels.
pub uninterp spec fn image_height_of(img: image::DynamicImage) -> nat;

/// Name for what `DynamicImage::color` allows: whether the image's sample
/// format is one the PNG encoder takes (the 8- and 16-bit forms; images
/// decoded to floating-point samples are not).
pub uninterp spec fn png_encodable(img: image::DynamicImage) -> bool;

/// The two resampling filters the configuration chooses between.
#[derive(Clone, Copy, Debug, PartialEq, Eq)]
pub enum ScaleFilter {
    /// Slower, higher quality.
    Lanczos3,
    /// Faster, lower quality.
    Triangle,
}

/// Name for what `DynamicImage::resize` returns.
pub uninterp spec fn resized_image_of(
    img: image::DynamicImage,
    size: u32,
    filter: ScaleFilter,
) -> image::DynamicImage;

/// Name for what `DynamicImage::write_to` produces with the PNG format.
pub uninterp spec fn png_encoding_of(img: image::DynamicImage) -> Seq<u8>;

/// The width of the image that `data` decodes to.
pub open spec fn decoded_width(data: Seq<u8>) -> nat {
    image_width_of(image_decoding_of(data)->Ok_0)
}

/// The height of the image that `data` decodes to.
pub open spec fn decoded_height(data: Seq<u8>) -> nat {
    image_height_of(image_decoding_of(data)->Ok_0)
}

/// Relies on image::load_from_memory: detects the format from the bytes and
/// decodes them; the outcome depends on the bytes alone. The crate's
/// process-global decoding hooks are assumed unregistered, as nothing in
/// this program registers one.
#[verifier::external_body]
fn decode_image(data: &[u8]) -> (r: Result<image::DynamicImage, image::error::ImageError>)
    ensures
        r == image_decoding_of(data@),
{
    image::load_from_memory(data)
}

/// Relies on DynamicImage::resize: scales the image to fit within the given
/// square, keeping the aspect ratio. Both output dimensions are clamped into
/// `1..=size`, and a square source comes out exactly `size` by `size`.
#[verifier::external_body]
fn resize_image(img: &image::DynamicImage, size: u32, filter: ScaleFilter) -> (r:
    image::DynamicImage)
    ensures
        r == resized_image_of(*img, size, filter),
        size >= 1 ==> 1 <= image_width_of(r) && image_width_of(r) <= size && 1
            <= image_height_of(r) && image_height_of(r) <= size,
        size >= 1 && image_width_of(*img) >= 1 && image_width_of(*img)
            == image_height_of(*img) ==> image_width_of(r) == size && image_height_of(
            r,
        ) == size,
        png_encodable(r) == png_encodable(*img),
{
    let f = match filter {
        ScaleFilter::Lanczos3 => image::imageops::FilterType::Lanczos3,
        ScaleFilter::Triangle => image::imageops::FilterType::Triangle,
    };
    img.resize(size, size, f)
}

/// Relies on DynamicImage::write_to with the PNG format: encodes the image
/// into in-memory PNG bytes. Encoding an image with nonzero dimensions and a
/// PNG-supported sample format cannot fail on an in-memory buffer; the
/// produced bytes decode back to an image of the same dimensions, stated up
/// to 4096 pixels a side, well within the decoder's default limits.
#[verifier::external_body]
fn encode_png(img: &image::DynamicImage) -> (r: Result<Vec<u8>, image::error::ImageError>)
    ensures
        image_width_of(*img) >= 1 && image_height_of(*img) >= 1 && png_encodable(
            *img,
        ) ==> r is Ok,
        r matches Ok(d) ==> d@ == png_encoding_of(*img),
        image_width_of(*img) <= 4096 && image_height_of(*img) <= 4096 ==> (
        r matches Ok(d) ==> image_decodes(d@) && decoded_width(d@) == image_width_of(
            *img,
        ) && decoded_height(d@) == image_height_of(*img)),
{
    let mut data: Vec<u8> = Vec::with_capacity(1024);
    let mut buf = std::io::Cursor::new(&mut data);
    match img.write_to(&mut buf, image::ImageFormat::Png) {
        Ok(()) => Ok(data),
        Err(e) => Err(e),
    }
}

/// Why an icon could not be produced; either failure fails the whole
/// operation, with no partial output.
#[derive(Clone, Copy, Debug, PartialEq, Eq)]
pub enum IconError {
    /// The source bytes are not a decodable image.
    Decode,
    /// The scaled image could not be encoded as PNG.
    Encode,
}

/// The filter the configuration selects: the faster one only when fast
/// scaling is asked for.
pub open spec fn filter_of(fast_scaling: bool) -> ScaleFilter {
    if fast_scaling {
        ScaleFilter::Triangle
    } else {
        ScaleFilter::Lanczos3
    }
}

/// The image the scaler produces from `data`: the decoded source, resized to
/// fit within the configured square with the configured filter.
pub open spec fn scaled_image(data: Seq<u8>, size: u32, fast_scaling: bool) -> image::DynamicImage {
    resized_image_of(image_decoding_of(data)->Ok_0, size, filter_of(fast_scaling))
}

/// The PNG bytes the scaler produces from `data`.
pub open spec fn scaled_png(data: Seq<u8>, size: u32, fast_scaling: bool) -> Seq<u8> {
    png_encoding_of(scaled_image(data, size, fast_scaling))
}

/// Decodes the source image, resizes it to fit within `size` by `size` —
/// Lanczos3 resampling unless fast scaling is configured — and encodes the
/// result as PNG. A source that does not decode fails with `Decode`; only an
/// encoder failure is reported as `Encode`; there is no partial output. A
/// decodable source with a PNG-encodable sample format succeeds, and a
/// square source yields a PNG of exactly `size` by `size`.
pub fn scale_cover(data: &[u8], size: u32, fast_scaling: bool) -> (r: Result<
    Vec<u8>,
    IconError,
>)
    ensures
        !image_decodes(data@) ==> r == Err::<Vec<u8>, IconError>(IconError::Decode),
        image_decodes(data@) ==> (r is Ok || r == Err::<Vec<u8>, IconError>(
            IconError::Encode,
        )),
        image_decodes(data@) && size >= 1 && png_encodable(
            scaled_image(data@, size, fast_scaling),
        ) ==> r is Ok,
        r matches Ok(d) ==> image_decodes(data@) && d@ == scaled_png(
            data@,
            size,
            fast_scaling,
        ),
        1 <= size <= 4096 ==> (r matches Ok(d) ==> image_decodes(d@) && 1
            <= decoded_width(d@) && decoded_width(d@) <= size && decoded_height(d@)
            <= size),
        1 <= size <= 4096 && decoded_width(data@) >= 1 && decoded_width(data@)
            == decoded_height(data@) ==> (r matches Ok(d) ==> decoded_width(d@)
            == size && decoded_height(d@) == size),
{
    let img = match decode_image(data) {
        Ok(i) => i,
        Err(_e) => {
            return Err(IconError::Decode);
        },
    };
    let filter = if fast_scaling {
        ScaleFilter::Triangle
    } else {
        ScaleFilter::Lanczos3
    };
    assert(filter == filter_of(fast_scaling));
    let scaled = resize_image(&img, size, filter);
    match encode_png(&scaled) {
        Ok(d) => Ok(d),
        Err(_e) => Err(IconError::Encode),
    }
}

/// The `image/png` content type every icon response carries.
pub open spec fn lit_image_png() -> Seq<u8> {
    seq![105u8, 109u8, 97u8, 103u8, 101u8, 47u8, 112u8, 110u8, 103u8]
}

fn image_png_bytes() -> (r: Vec<u8>)
    ensures
        r@ == lit_image_png(),
{
    let arr: [u8; 9] = [105, 109, 97, 103, 101, 47, 112, 110, 103];
    proof {
        assert(arr@ =~= lit_image_png());
    }
    let mut v: Vec<u8> = Vec::new();
    v.extend_from_slice(arr.as_slice());
    v
}

/// Serves a previously cached thumbnail verbatim: a response comes back
/// exactly when the cache is enabled and holds the entry, and its body is
/// the cached bytes unchanged.
pub fn icon_from_cache(cache_enabled: bool, cached: Option<Vec<u8>>) -> (r: Option<
    HttpResponse,
>)
    ensures
        r is Some <==> (cache_enabled && cached is Some),
        r matches Some(resp) ==> cached matches Some(d) && resp.status == 200
            && resp.body@ == d@ && opt_bytes(resp.content_type) == Some(lit_image_png())
            && resp.allow_origin is None && !resp.allow_credentials,
{
    if !cache_enabled {
        return None;
    }
    match cached {
        Some(d) => Some(
            HttpResponse {
                status: 200,
                body: d,
                content_type: Some(image_png_bytes()),
                cache_age: None,
                allow_origin: None,
                allow_credentials: false,
            },
        ),
        None => None,
    }
}

/// Produces the icon response from the source image bytes on a cache miss
/// (or with caching disabled). The body is exactly what the scaler
/// produced, and a scaler failure is handed through unchanged. On success
/// the second component holds the very bytes of the body again exactly when
/// the cache is enabled: what is written back is what was served, so a later
/// cache hit serves identical bytes.
pub fn icon_from_source(data: &[u8], size: u32, fast_scaling: bool, cache_enabled: bool) -> (r:
    Result<(HttpResponse, Option<Vec<u8>>), IconError>)
    ensures
        !image_decodes(data@) ==> r is Err && r->Err_0 == IconError::Decode,
        image_decodes(data@) ==> (r is Ok || r->Err_0 == IconError::Encode),
        image_decodes(data@) && size >= 1 && png_encodable(
            scaled_image(data@, size, fast_scaling),
        ) ==> r is Ok,
        r matches Ok((resp, wb)) ==> image_decodes(data@) && resp.status == 200
            && resp.body@ == scaled_png(data@, size, fast_scaling) && opt_bytes(
            resp.content_type,
        ) == Some(lit_image_png()) && resp.allow_origin is None
            && !resp.allow_credentials && (wb is Some <==> cache_enabled) && (
        wb matches Some(w) ==> w@ == resp.body@),
{
    let scaled = match scale_cover(data, size, fast_scaling) {
        Ok(d) => d,
        Err(e) => {
            return Err(e);
        },
    };
    let write_back: Option<Vec<u8>> = if cache_enabled {
        let mut copy: Vec<u8> = Vec::new();
        copy.extend_from_slice(scaled.as_slice());
        Some(copy)
    } else {
        None
    };
    Ok(
        (
            HttpResponse {
                status: 200,
                body: scaled,
                content_type: Some(image_png_bytes()),
                cache_age: None,
                allow_origin: None,
                allow_credentials: false,
            },
            write_back,
        ),
    )
}

} // verus!
