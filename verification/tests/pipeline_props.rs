use image_provider::cache::ResultCache;
use image_provider::error::ImageError;
use image_provider::format::FormatClass;
use image_provider::pipeline::response_header_values;
use image_provider::pipeline::evaluate_request;
use image_provider::pipeline::transform_image;
use image_provider::pipeline::RequestPlan;
use image_provider::query::ImageQuery;
use image_provider::config::AlgorithmKind;
use image_provider::config::FilterKind;

use image::ImageEncoder;

fn query(output: Option<&str>, dpr: Option<u32>, w: Option<u32>, h: Option<u32>) -> ImageQuery {
    ImageQuery { output: output.map(|s| s.to_string()), dpr, w, h }
}

/// An 800x600 RGB JPEG built in memory.
fn jpeg_800x600() -> Vec<u8> {
    let mut raw = Vec::with_capacity(800 * 600 * 3);
    for y in 0..600u32 {
        for x in 0..800u32 {
            raw.push((x % 256) as u8);
            raw.push((y % 256) as u8);
            raw.push(((x + y) % 256) as u8);
        }
    }
    let mut bytes = Vec::new();
    image::codecs::jpeg::JpegEncoder::new(&mut bytes)
        .write_image(&raw, 800, 600, image::ExtendedColorType::Rgb8)
        .unwrap();
    bytes
}

fn decoded_size(bytes: &[u8]) -> (u32, u32) {
    let img = image::load_from_memory(bytes).unwrap();
    (img.width(), img.height())
}

#[test]
fn width_400_gives_400x300_in_the_same_format() {
    let src = jpeg_800x600();
    let out = transform_image(
        &src,
        FormatClass::Jpeg,
        Some(400),
        None,
        1,
        FilterKind::Lanczos3,
        AlgorithmKind::Nearest,
    )
    .unwrap();
    assert_eq!((out.src_width, out.src_height), (800, 600));
    assert_eq!((out.width, out.height), (400, 300));
    assert_eq!(decoded_size(&out.bytes), (400, 300));
    assert_eq!(image::guess_format(&out.bytes).unwrap(), image::ImageFormat::Jpeg);
}

#[test]
fn width_400_at_dpr_2_gives_800x600() {
    let src = jpeg_800x600();
    let out = transform_image(
        &src,
        FormatClass::Jpeg,
        Some(400),
        None,
        2,
        FilterKind::Lanczos3,
        AlgorithmKind::Nearest,
    )
    .unwrap();
    assert_eq!((out.width, out.height), (800, 600));
    assert_eq!(decoded_size(&out.bytes), (800, 600));
}

#[test]
fn height_300_to_webp_gives_width_400() {
    let src = jpeg_800x600();
    let out = transform_image(
        &src,
        FormatClass::WebP,
        None,
        Some(300),
        1,
        FilterKind::Lanczos3,
        AlgorithmKind::Nearest,
    )
    .unwrap();
    assert_eq!((out.width, out.height), (400, 300));
    assert_eq!(decoded_size(&out.bytes), (400, 300));
    assert_eq!(image::guess_format(&out.bytes).unwrap(), image::ImageFormat::WebP);
}

#[test]
fn repeated_transforms_are_byte_identical_and_cacheable() {
    let src = jpeg_800x600();
    let run = || {
        transform_image(
            &src,
            FormatClass::Png,
            Some(64),
            None,
            1,
            FilterKind::Lanczos3,
            AlgorithmKind::Nearest,
        )
        .unwrap()
        .bytes
    };
    let first = run();
    assert_eq!(first, run());

    let key = image_provider::cache::CacheKey {
        path: "/srv/a.jpg".to_string(),
        output: Some("image/png".to_string()),
        w: Some(64),
        h: None,
        dpr: 1,
    };
    let mut cache = ResultCache::new(8, 3600);
    cache.insert(key.duplicate(), first.clone(), 0);
    assert_eq!(cache.lookup(&key, 1), Some(first));
}

#[test]
fn undecodable_bytes_are_a_decode_failure() {
    let garbage = vec![0u8; 64];
    match transform_image(
        &garbage,
        FormatClass::Jpeg,
        Some(10),
        None,
        1,
        FilterKind::Lanczos3,
        AlgorithmKind::Nearest,
    ) {
        Err(ImageError::DecodeFailed(_)) => {}
        other => panic!("expected a decode failure, got {other:?}"),
    }
}

#[test]
fn non_encodable_target_is_a_request_error() {
    let src = jpeg_800x600();
    let r = transform_image(
        &src,
        FormatClass::Other,
        Some(10),
        None,
        1,
        FilterKind::Lanczos3,
        AlgorithmKind::Nearest,
    );
    assert_eq!(r.unwrap_err(), ImageError::UnsupportedEncodeTarget);
    assert_eq!(ImageError::UnsupportedEncodeTarget.status_code(), 400);
}

#[test]
fn oversized_destination_is_refused_before_resampling() {
    let src = jpeg_800x600();
    let r = transform_image(
        &src,
        FormatClass::Jpeg,
        Some(u32::MAX / 2),
        None,
        3,
        FilterKind::Lanczos3,
        AlgorithmKind::Nearest,
    );
    assert_eq!(r.unwrap_err(), ImageError::OversizedDimensions);
}

#[test]
fn untouched_request_passes_through() {
    let path = "/srv/images/a.jpg".to_string();
    match evaluate_request(&path, &query(None, None, None, None)).unwrap() {
        RequestPlan::PassThrough { mime } => assert_eq!(mime, "image/jpeg"),
        other => panic!("expected pass-through, got {other:?}"),
    }
}

#[test]
fn same_format_override_still_passes_through() {
    let path = "/srv/images/a.jpg".to_string();
    match evaluate_request(&path, &query(Some("jpeg"), Some(1), None, None)).unwrap() {
        RequestPlan::PassThrough { mime } => assert_eq!(mime, "image/jpeg"),
        other => panic!("expected pass-through, got {other:?}"),
    }
}

#[test]
fn resize_request_goes_through_the_pipeline() {
    let path = "/srv/images/a.jpg".to_string();
    match evaluate_request(&path, &query(None, Some(2), Some(400), None)).unwrap() {
        RequestPlan::Transform { mime, class, key } => {
            assert_eq!(mime, "image/jpeg");
            assert_eq!(class, FormatClass::Jpeg);
            assert_eq!(key.path, path);
            assert_eq!(key.output, None);
            assert_eq!(key.w, Some(400));
            assert_eq!(key.h, None);
            assert_eq!(key.dpr, 2);
        }
        other => panic!("expected a transform plan, got {other:?}"),
    }
}

#[test]
fn format_conversion_alone_goes_through_the_pipeline() {
    let path = "/srv/images/a.jpg".to_string();
    match evaluate_request(&path, &query(Some("png"), None, None, None)).unwrap() {
        RequestPlan::Transform { mime, class, key } => {
            assert_eq!(mime, "image/png");
            assert_eq!(class, FormatClass::Png);
            assert_eq!(key.output, Some("image/png".to_string()));
            assert_eq!(key.dpr, 1);
        }
        other => panic!("expected a transform plan, got {other:?}"),
    }
}

#[test]
fn animated_and_icon_sources_always_pass_through() {
    for name in ["/srv/a.gif", "/srv/a.ico"] {
        let path = name.to_string();
        match evaluate_request(&path, &query(None, None, Some(400), Some(300))).unwrap() {
            RequestPlan::PassThrough { .. } => {}
            other => panic!("expected pass-through for {name}, got {other:?}"),
        }
    }
}

#[test]
fn unknown_source_extension_is_unsupported() {
    let path = "/srv/images/a.nonsense".to_string();
    let r = evaluate_request(&path, &query(None, None, None, None));
    match r {
        Err(ImageError::UnsupportedFileType) => {
            assert_eq!(ImageError::UnsupportedFileType.status_code(), 400);
        }
        other => panic!("expected an unsupported file type, got {other:?}"),
    }
}

#[test]
fn unknown_output_override_is_reported_with_its_value() {
    let path = "/srv/images/a.jpg".to_string();
    match evaluate_request(&path, &query(Some("gibberish"), None, None, None)) {
        Err(ImageError::UnsupportedOutputFormat(v)) => assert_eq!(v, "gibberish"),
        other => panic!("expected an unsupported output format, got {other:?}"),
    }
}

#[test]
fn response_headers_carry_the_destination_type() {
    let hs = response_header_values(&"image/webp".to_string());
    assert_eq!(hs.len(), 3);
    assert_eq!(hs[0], ("content-type".to_string(), "image/webp".to_string()));
    assert_eq!(
        hs[1],
        ("cache-control".to_string(), "public, max-age=31536000".to_string())
    );
    assert_eq!(
        hs[2],
        ("x-content-type-options".to_string(), "nosniff".to_string())
    );
}

#[test]
fn error_statuses_follow_the_taxonomy() {
    assert_eq!(ImageError::NotFound.status_code(), 404);
    assert_eq!(ImageError::UnsupportedFileType.status_code(), 400);
    assert_eq!(
        ImageError::UnsupportedOutputFormat("x".to_string()).status_code(),
        400
    );
    assert_eq!(ImageError::ReadFailed.status_code(), 500);
    assert_eq!(ImageError::DecodeFailed("d".to_string()).status_code(), 500);
    assert_eq!(ImageError::OversizedDimensions.status_code(), 500);
    assert_eq!(ImageError::ResizeFailed.status_code(), 500);
    assert_eq!(ImageError::EncodeFailed("e".to_string()).status_code(), 500);
}
