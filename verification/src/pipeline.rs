//! The transform pipeline and the pass-through decision.
//!
//! A request either receives the original file verbatim or goes through
//! decode, resample and encode. The decision, the destination geometry and
//! the error routing are verified; the codec and resampler calls themselves
//! are trusted capabilities of the codec crates.

use vstd::prelude::*;

use image::ImageEncoder;
use image::codecs::jpeg::JpegEncoder;
use image::codecs::png::PngEncoder;
use image::codecs::webp::WebPEncoder;

use crate::config::AlgorithmKind;
use crate::config::FilterKind;
use crate::config::ResizeConfig;
use crate::config::ResizePlan;
use crate::config::spec_config_valid;
use crate::error::ImageError;
use crate::format::DetectedFormat;
use crate::format::FormatClass;
use crate::format::detect_format_by_ext;
use crate::format::format_of_ext;
use crate::format::mime_of_ext;
use crate::format::spec_is_encode_target;
use crate::format::spec_is_excluded;
use crate::cache::CacheKey;
use crate::cache::CacheKeyView;
use crate::paths::extension_of;
use crate::paths::spec_extension;
use crate::query::ImageQuery;
use crate::query::spec_clamped_dpr;
use crate::sizing::checked_output_size;
use crate::sizing::output_size;

verus! {

#[verifier::external_type_specification]
#[verifier::external_body]
pub struct ExDynamicImage(image::DynamicImage);

#[verifier::external_type_specification]
#[verifier::external_body]
pub struct ExColorType(image::ColorType);

#[verifier::external_type_specification]
#[verifier::external_body]
pub struct ExResizeAlg(fast_image_resize::ResizeAlg);

#[verifier::external_type_specification]
#[verifier::external_body]
pub struct ExFilterType(fast_image_resize::FilterType);

#[verifier::external_type_specification]
#[verifier::external_body]
pub struct ExFirImage<'a>(fast_image_resize::images::Image<'a>);

/// The dimensions of the image the codec decodes from these bytes, or
/// `None` where decoding fails. Decoding is a function of the bytes alone.
pub uninterp spec fn decode_dims(bytes: Seq<u8>) -> Option<(u32, u32)>;

/// Whether the resampler supports the pixel layout of the image decoded
/// from these bytes; meaningful only for bytes that decode.
pub uninterp spec fn resample_supported(bytes: Seq<u8>) -> bool;

/// The bytes the pipeline encodes for a source, a destination size, an
/// algorithm choice and a target format, or `None` where the encoder
/// reports an error. The decode, resample and encode steps read nothing but
/// their arguments, so the output is a function of these values alone —
/// the determinism that makes cached replays byte-identical.
pub uninterp spec fn encoded_bytes(
    bytes: Seq<u8>,
    w: u32,
    h: u32,
    filter: FilterKind,
    algorithm: AlgorithmKind,
    target: FormatClass,
) -> Option<Seq<u8>>;

/// A decoded source image: the pixel buffer, its dimensions and color
/// layout as the codec reports them, and the bytes it was decoded from.
/// Only `decode_image` builds one, so the fields always belong together.
struct DecodedImage {
    img: image::DynamicImage,
    width: u32,
    height: u32,
    color: image::ColorType,
    src: Ghost<Seq<u8>>,
}

/// Relies on `image::load_from_memory`: decodes the bytes into a pixel
/// buffer and reports its dimensions and color type; a failure carries the
/// codec's report. The result depends on the bytes alone.
#[verifier::external_body]
fn decode_raw(bytes: &Vec<u8>) -> (r: Result<
    (image::DynamicImage, u32, u32, image::ColorType),
    String,
>)
    ensures
        r is Ok <==> decode_dims(bytes@) is Some,
        r matches Ok(d) ==> Some((d.1, d.2)) == decode_dims(bytes@),
{
    match image::load_from_memory(bytes.as_slice()) {
        Ok(img) => {
            let (w, h, c) = (img.width(), img.height(), img.color());
            Ok((img, w, h, c))
        },
        Err(e) => Err(e.to_string()),
    }
}

/// Decodes the bytes and tags the result with the bytes it came from.
fn decode_image(bytes: &Vec<u8>) -> (r: Result<DecodedImage, String>)
    ensures
        r is Ok <==> decode_dims(bytes@) is Some,
        r matches Ok(d) ==> Some((d.width, d.height)) == decode_dims(bytes@) && d.src@
            == bytes@,
{
    match decode_raw(bytes) {
        Ok((img, width, height, color)) => Ok(
            DecodedImage { img, width, height, color, src: Ghost(bytes@) },
        ),
        Err(m) => Err(m),
    }
}

/// Relies on `fast_image_resize::FilterType`: the filter value each kind of
/// this library stands for.
#[verifier::external_body]
fn make_filter(f: FilterKind) -> (r: fast_image_resize::FilterType) {
    match f {
        FilterKind::Lanczos3 => fast_image_resize::FilterType::Lanczos3,
        FilterKind::Gaussian => fast_image_resize::FilterType::Gaussian,
        FilterKind::CatmullRom => fast_image_resize::FilterType::CatmullRom,
        FilterKind::Hamming => fast_image_resize::FilterType::Hamming,
        FilterKind::Mitchell => fast_image_resize::FilterType::Mitchell,
        FilterKind::Bilinear => fast_image_resize::FilterType::Bilinear,
        FilterKind::Box => fast_image_resize::FilterType::Box,
    }
}

/// Relies on `fast_image_resize::ResizeAlg`: the algorithm value each kind
/// of this library stands for, carrying the chosen filter.
#[verifier::external_body]
fn make_resize_alg(a: AlgorithmKind, ft: fast_image_resize::FilterType) -> (r:
    fast_image_resize::ResizeAlg) {
    match a {
        AlgorithmKind::SuperSampling8x => fast_image_resize::ResizeAlg::SuperSampling(ft, 8),
        AlgorithmKind::SuperSampling4x => fast_image_resize::ResizeAlg::SuperSampling(ft, 4),
        AlgorithmKind::SuperSampling2x => fast_image_resize::ResizeAlg::SuperSampling(ft, 2),
        AlgorithmKind::Convolution => fast_image_resize::ResizeAlg::Convolution(ft),
        AlgorithmKind::Interpolation => fast_image_resize::ResizeAlg::Interpolation(ft),
        AlgorithmKind::Nearest => fast_image_resize::ResizeAlg::Nearest,
    }
}

impl ResizePlan {
    /// The resampler algorithm this validated configuration stands for.
    pub fn resize_alg(&self) -> fast_image_resize::ResizeAlg {
        let ft = make_filter(self.filter);
        make_resize_alg(self.algorithm, ft)
    }
}

impl ResizeConfig {
    /// The resampler algorithm the configured names stand for; the names
    /// must have been validated.
    pub fn resize_algorithm(&self) -> fast_image_resize::ResizeAlg
        requires
            spec_config_valid(self),
    {
        let plan = match self.validate() {
            Ok(p) => p,
            Err(_) => {
                proof {
                    assert(false);
                }
                unreached()
            },
        };
        plan.resize_alg()
    }
}

/// A resampled destination buffer, carrying the source bytes, the size and
/// the algorithm choice that produced it. Only `resample_image` builds one.
struct ResampledImage {
    img: fast_image_resize::images::Image<'static>,
    width: u32,
    height: u32,
    color: image::ColorType,
    src: Ghost<Seq<u8>>,
    filter: Ghost<FilterKind>,
    algorithm: Ghost<AlgorithmKind>,
}

/// Relies on `fast_image_resize::Resizer::resize` with fit-into-destination
/// cropping, whose default centering anchors at the midpoint of both axes:
/// resamples the decoded buffer into a fresh destination buffer of the
/// given size, preserving the source aspect ratio. It fails, instead of
/// panicking, exactly where the resizer does not support the decoded pixel
/// layout — a property of the decoded bytes alone.
#[verifier::external_body]
fn resample_raw(
    src: &DecodedImage,
    dst_w: u32,
    dst_h: u32,
    filter: FilterKind,
    algorithm: AlgorithmKind,
) -> (r: Result<fast_image_resize::images::Image<'static>, ()>)
    ensures
        r is Ok <==> resample_supported(src.src@),
{
    let pixel_type = match fast_image_resize::IntoImageView::pixel_type(&src.img) {
        Some(p) => p,
        None => return Err(()),
    };
    let mut dst = fast_image_resize::images::Image::new(dst_w, dst_h, pixel_type);
    let alg = make_resize_alg(algorithm, make_filter(filter));
    let options = fast_image_resize::ResizeOptions::new().resize_alg(alg).fit_into_destination(
        None,
    );
    match fast_image_resize::Resizer::new().resize(&src.img, &mut dst, Some(&options)) {
        Ok(()) => Ok(dst),
        Err(_) => Err(()),
    }
}

/// Resamples a decoded image and tags the result with the source bytes,
/// the destination size and the algorithm choice that produced it.
fn resample_image(
    src: &DecodedImage,
    dst_w: u32,
    dst_h: u32,
    filter: FilterKind,
    algorithm: AlgorithmKind,
) -> (r: Result<ResampledImage, ()>)
    ensures
        r is Ok <==> resample_supported(src.src@),
        r matches Ok(out) ==> out.width == dst_w && out.height == dst_h && out.src == src.src
            && out.filter@ == filter && out.algorithm@ == algorithm,
{
    match resample_raw(src, dst_w, dst_h, filter, algorithm) {
        Ok(img) => Ok(
            ResampledImage {
                img,
                width: dst_w,
                height: dst_h,
                color: src.color,
                src: Ghost(src.src@),
                filter: Ghost(filter),
                algorithm: Ghost(algorithm),
            },
        ),
        Err(()) => Err(()),
    }
}

/// Relies on `Image::buffer` and `ColorType::bytes_per_pixel`: the pixel
/// buffer, provided its length matches the declared layout — the asserted
/// precondition of the codec crate's encoders. The resampler always
/// allocates a matching buffer, so the check never fails on the inputs this
/// module builds; it exists so a mismatch would fail closed, not panic.
#[verifier::external_body]
fn checked_buffer<'a>(img: &'a ResampledImage) -> (r: Option<&'a [u8]>) {
    let b = img.img.buffer();
    let pixels = u64::from(img.img.width()) * u64::from(img.img.height());
    if b.len() as u64 == pixels * u64::from(img.color.bytes_per_pixel()) {
        Some(b)
    } else {
        None
    }
}

/// Relies on the codec crate's JPEG, PNG and lossless-WebP encoders: encodes
/// the resampled buffer into the requested target format; a failure carries
/// the encoder's report. The buffer goes through `checked_buffer` first, so
/// the encoders' length assertion cannot fire.
#[verifier::external_body]
fn encode_buffer(img: &ResampledImage, target: FormatClass) -> (r: Result<Vec<u8>, String>)
    requires
        spec_is_encode_target(target),
    ensures
        r is Ok <==> encoded_bytes(img.src@, img.width, img.height, img.filter@,
            img.algorithm@, target) is Some,
        r matches Ok(b) ==> Some(b@) == encoded_bytes(img.src@, img.width, img.height,
            img.filter@, img.algorithm@, target),
{
    let b = match checked_buffer(img) {
        Some(b) => b,
        None => return Err("buffer layout mismatch".to_string()),
    };
    let (w, h) = (img.img.width(), img.img.height());
    let c: image::ExtendedColorType = img.color.into();
    let mut buf: Vec<u8> = Vec::new();
    let res = match target {
        FormatClass::Png => PngEncoder::new(&mut buf).write_image(b, w, h, c),
        FormatClass::Jpeg => JpegEncoder::new(&mut buf).write_image(b, w, h, c),
        _ => WebPEncoder::new_lossless(&mut buf).write_image(b, w, h, c),
    };
    res.map(|()| buf).map_err(|e| e.to_string())
}

/// The result of one transform: the encoded bytes, with the source and
/// destination geometry that produced them.
#[derive(Debug)]
pub struct TransformOutput {
    pub bytes: Vec<u8>,
    pub src_width: u32,
    pub src_height: u32,
    pub width: u32,
    pub height: u32,
}

/// Whether the bytes decode into an image with at least one pixel each way.
pub open spec fn spec_decodable(bytes: Seq<u8>) -> bool {
    match decode_dims(bytes) {
        Some((w, h)) => w > 0 && h > 0,
        None => false,
    }
}

/// The destination size a transform of these bytes would have, before the
/// machine limit is applied; meaningful only for decodable bytes.
pub open spec fn spec_transform_size(
    bytes: Seq<u8>,
    w: Option<u32>,
    h: Option<u32>,
    dpr: u32,
) -> (int, int) {
    match decode_dims(bytes) {
        Some((sw, sh)) => output_size(sw as int, sh as int, w, h, dpr as int),
        None => (0, 0),
    }
}

/// Whether both destination dimensions fit in `u32`.
pub open spec fn spec_size_fits(bytes: Seq<u8>, w: Option<u32>, h: Option<u32>, dpr: u32) -> bool {
    spec_transform_size(bytes, w, h, dpr).0 <= u32::MAX && spec_transform_size(
        bytes, w, h, dpr,
    ).1 <= u32::MAX
}

/// The bytes a transform of this request encodes, once the bytes decode,
/// the destination size fits, the layout is supported and the target can be
/// encoded.
pub open spec fn spec_transformed(
    bytes: Seq<u8>,
    target: FormatClass,
    w: Option<u32>,
    h: Option<u32>,
    dpr: u32,
    filter: FilterKind,
    algorithm: AlgorithmKind,
) -> Option<Seq<u8>> {
    let (dw, dh) = spec_transform_size(bytes, w, h, dpr);
    encoded_bytes(bytes, dw as u32, dh as u32, filter, algorithm, target)
}

/// Decodes the file's bytes, computes the destination size from the request
/// and the source aspect ratio, resamples with the configured algorithm,
/// and encodes into the target format. Success is owed exactly when the
/// bytes decode to a nonempty image, the destination size fits, the pixel
/// layout is supported, the target is an encode target (JPEG, PNG or
/// lossless WebP) and the encoder accepts; each failing stage yields its
/// own error of the taxonomy, and nothing is cached by this function
/// itself.
pub fn transform_image(
    file_bytes: &Vec<u8>,
    target: FormatClass,
    w: Option<u32>,
    h: Option<u32>,
    dpr: u32,
    filter: FilterKind,
    algorithm: AlgorithmKind,
) -> (r: Result<TransformOutput, ImageError>)
    requires
        1 <= dpr <= 3,
    ensures
        (r matches Err(e) && e matches ImageError::DecodeFailed(_)) <==> !spec_decodable(
            file_bytes@),
        (r matches Err(e) && e == ImageError::OversizedDimensions) <==> (spec_decodable(
            file_bytes@) && !spec_size_fits(file_bytes@, w, h, dpr)),
        (r matches Err(e) && e == ImageError::ResizeFailed) <==> (spec_decodable(file_bytes@)
            && spec_size_fits(file_bytes@, w, h, dpr) && !resample_supported(file_bytes@)),
        (r matches Err(e) && e == ImageError::UnsupportedEncodeTarget) <==> (spec_decodable(
            file_bytes@) && spec_size_fits(file_bytes@, w, h, dpr) && resample_supported(
            file_bytes@) && !spec_is_encode_target(target)),
        (r matches Err(e) && e matches ImageError::EncodeFailed(_)) <==> (spec_decodable(
            file_bytes@) && spec_size_fits(file_bytes@, w, h, dpr) && resample_supported(
            file_bytes@) && spec_is_encode_target(target) && spec_transformed(file_bytes@,
            target, w, h, dpr, filter, algorithm) is None),
        r is Ok <==> (spec_decodable(file_bytes@) && spec_size_fits(file_bytes@, w, h, dpr)
            && resample_supported(file_bytes@) && spec_is_encode_target(target)
            && spec_transformed(file_bytes@, target, w, h, dpr, filter, algorithm) is Some),
        r matches Ok(out) ==> Some(out.bytes@) == spec_transformed(file_bytes@, target, w, h,
            dpr, filter, algorithm) && Some((out.src_width, out.src_height)) == decode_dims(
            file_bytes@) && (out.width as int, out.height as int) == spec_transform_size(
            file_bytes@, w, h, dpr),
{
    let decoded = match decode_image(file_bytes) {
        Ok(d) => d,
        Err(m) => {
            return Err(ImageError::DecodeFailed(m));
        },
    };
    if decoded.width == 0 || decoded.height == 0 {
        return Err(ImageError::DecodeFailed("decoded image has no pixels".to_owned()));
    }
    let (dst_w, dst_h) = match checked_output_size(
        (decoded.width, decoded.height),
        (w, h),
        dpr,
    ) {
        Some(p) => p,
        None => {
            return Err(ImageError::OversizedDimensions);
        },
    };
    let dst = match resample_image(&decoded, dst_w, dst_h, filter, algorithm) {
        Ok(i) => i,
        Err(_) => {
            return Err(ImageError::ResizeFailed);
        },
    };
    if !target.is_encode_target() {
        return Err(ImageError::UnsupportedEncodeTarget);
    }
    let bytes = match encode_buffer(&dst, target) {
        Ok(b) => b,
        Err(m) => {
            return Err(ImageError::EncodeFailed(m));
        },
    };
    Ok(
        TransformOutput {
            bytes,
            src_width: decoded.width,
            src_height: decoded.height,
            width: dst_w,
            height: dst_h,
        },
    )
}

/// The format the MIME-guessing and codec crates detect for a path's
/// file-name extension.
pub open spec fn spec_source_format(path: Seq<char>) -> Option<FormatClass> {
    match spec_extension(path) {
        None => None,
        Some(e) => format_of_ext(e),
    }
}

/// The canonical MIME type of the format detected for a path; meaningful
/// only where a format is detected.
pub open spec fn spec_source_mime(path: Seq<char>) -> Seq<char> {
    match spec_extension(path) {
        None => Seq::<char>::empty(),
        Some(e) => mime_of_ext(e),
    }
}

/// Detects the source format of a resolved path from its file-name
/// extension, or reports the unsupported file type.
pub fn source_format_for_path(path: &String) -> (r: Result<DetectedFormat, ImageError>)
    ensures
        match spec_source_format(path@) {
            Some(class) => (r matches Ok(d) && d.class == class && d.mime@ == spec_source_mime(
                path@) && (forall|e2: Seq<char>|
                (#[trigger] format_of_ext(e2)) == Some(d.class) && d.class
                    != FormatClass::Other ==> mime_of_ext(e2) == d.mime@)),
            None => r == Result::<DetectedFormat, ImageError>::Err(
                ImageError::UnsupportedFileType,
            ),
        },
{
    let ext = match extension_of(path.as_str()) {
        Some(e) => e,
        None => {
            return Err(ImageError::UnsupportedFileType);
        },
    };
    match detect_format_by_ext(ext.as_str()) {
        Some(d) => Ok(d),
        None => Err(ImageError::UnsupportedFileType),
    }
}

/// Whether the original file is served verbatim: no width, no height, a
/// device pixel ratio of 1 and an output format equal to the source format;
/// or a source format that is excluded from the transform pipeline
/// altogether.
pub open spec fn spec_pass_through(
    src_class: FormatClass,
    src_mime: Seq<char>,
    dst_mime: Seq<char>,
    w: Option<u32>,
    h: Option<u32>,
    dpr: u32,
) -> bool {
    (w is None && h is None && dpr == 1 && dst_mime == src_mime) || spec_is_excluded(src_class)
}

/// What the request resolver decided: serve the original bytes, or run the
/// transform pipeline under a cache key.
#[derive(Debug)]
pub enum RequestPlan {
    /// Serve the original file verbatim, under this response MIME type.
    PassThrough { mime: String },
    /// Transform into `class`, respond under `mime`, cache under `key`.
    Transform { mime: String, class: FormatClass, key: CacheKey },
}

/// Resolves one request against a resolved source path: detects the source
/// format, interprets the output override, and decides between pass-through
/// and the transform pipeline, building the cache key of the normalized
/// request.
pub fn evaluate_request(path: &String, query: &ImageQuery) -> (r: Result<
    RequestPlan,
    ImageError,
>)
    ensures
        spec_source_format(path@) is None ==> r == Result::<RequestPlan, ImageError>::Err(
            ImageError::UnsupportedFileType,
        ),
        match query.output {
            Some(ext) => (spec_source_format(path@) is Some && format_of_ext(ext@) is None)
                ==> (r matches Err(e) && e matches ImageError::UnsupportedOutputFormat(v)
                && v@ == ext@),
            None => true,
        },
        (spec_source_format(path@) is Some && match query.output {
            Some(ext) => format_of_ext(ext@) is Some,
            None => true,
        }) ==> ({
            let src_class = match spec_source_format(path@) {
                Some(c) => c,
                None => FormatClass::Other,
            };
            let src_mime = spec_source_mime(path@);
            let dst_mime = match query.output {
                Some(ext) => mime_of_ext(ext@),
                None => src_mime,
            };
            let dst_class = match query.output {
                Some(ext) => match format_of_ext(ext@) {
                    Some(c) => c,
                    None => src_class,
                },
                None => src_class,
            };
            let dpr = spec_clamped_dpr(query.dpr);
            &&& r is Ok
            &&& (spec_pass_through(src_class, src_mime, dst_mime, query.w, query.h, dpr)
                ==> (r matches Ok(p) && p matches RequestPlan::PassThrough { mime } && mime@
                == dst_mime))
            &&& (!spec_pass_through(src_class, src_mime, dst_mime, query.w, query.h, dpr)
                ==> (r matches Ok(p) && p matches RequestPlan::Transform { mime, class, key }
                && mime@ == dst_mime && class == dst_class && key@ == (CacheKeyView {
                path: path@,
                output: match query.output {
                    Some(ext) => Some(mime_of_ext(ext@)),
                    None => None,
                },
                w: query.w,
                h: query.h,
                dpr: dpr,
            })))
        }),
        match query.output {
            Some(ext) => (spec_source_format(path@) is Some && format_of_ext(ext@)
                == spec_source_format(path@) && format_of_ext(ext@) != Some(
                FormatClass::Other,
            ) && query.w is None && query.h is None && spec_clamped_dpr(query.dpr) == 1)
                ==> (r matches Ok(p) && p matches RequestPlan::PassThrough { mime } && mime@
                == spec_source_mime(path@)),
            None => true,
        },
{
    let src = match source_format_for_path(path) {
        Ok(d) => d,
        Err(e) => {
            return Err(e);
        },
    };
    let dst = match query.output() {
        Ok(Some(d)) => d,
        Ok(None) => DetectedFormat { class: src.class, mime: src.mime.clone() },
        Err(e) => {
            return Err(e);
        },
    };
    let dpr = query.dpr();
    proof {
        // A same-format override names the same canonical MIME type as the
        // source extension, so the comparison below sees equal strings.
        match &query.output {
            Some(ext) => {
                if spec_source_format(path@) is Some && format_of_ext(ext@)
                    == spec_source_format(path@) && format_of_ext(ext@) != Some(
                    FormatClass::Other,
                ) {
                    let se = match spec_extension(path@) {
                        Some(e) => e,
                        None => Seq::<char>::empty(),
                    };
                    assert(format_of_ext(se) == Some(dst.class));
                    assert(mime_of_ext(se) == dst.mime@);
                    assert(src.mime@ == dst.mime@);
                }
            },
            None => {},
        }
    }
    let serves_original = (query.w.is_none() && query.h.is_none() && dpr == 1 && dst.mime
        == src.mime) || src.class.is_excluded();
    if serves_original {
        Ok(RequestPlan::PassThrough { mime: dst.mime })
    } else {
        let key = CacheKey {
            path: path.clone(),
            output: match &query.output {
                Some(_) => Some(dst.mime.clone()),
                None => None,
            },
            w: query.w,
            h: query.h,
            dpr,
        };
        proof {
            assert(key@ =~= (CacheKeyView {
                path: path@,
                output: match query.output {
                    Some(ext) => Some(mime_of_ext(ext@)),
                    None => None,
                },
                w: query.w,
                h: query.h,
                dpr: spec_clamped_dpr(query.dpr),
            }));
        }
        Ok(RequestPlan::Transform { mime: dst.mime, class: dst.class, key })
    }
}

/// The response headers of a successful answer: the destination MIME type,
/// a year-long public cache directive, and content-type sniffing disabled.
pub fn response_header_values(mime: &String) -> (r: Vec<(String, String)>)
    ensures
        r@.len() == 3,
        r@[0].0@ == "content-type"@ && r@[0].1@ == mime@,
        r@[1].0@ == "cache-control"@ && r@[1].1@ == "public, max-age=31536000"@,
        r@[2].0@ == "x-content-type-options"@ && r@[2].1@ == "nosniff"@,
{
    let mut v: Vec<(String, String)> = Vec::new();
    v.push(("content-type".to_owned(), mime.clone()));
    v.push(("cache-control".to_owned(), "public, max-age=31536000".to_owned()));
    v.push(("x-content-type-options".to_owned(), "nosniff".to_owned()));
    v
}

} // verus!
