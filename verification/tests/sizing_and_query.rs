use image_provider::query::ImageQuery;
use image_provider::sizing::checked_output_size;
use image_provider::sizing::get_output_size;

fn query(output: Option<&str>, dpr: Option<u32>, w: Option<u32>, h: Option<u32>) -> ImageQuery {
    ImageQuery { output: output.map(|s| s.to_string()), dpr, w, h }
}

#[test]
fn width_only_derives_height_from_aspect_ratio() {
    assert_eq!(get_output_size((800, 600), (Some(400), None), 1), (400, 300));
}

#[test]
fn height_only_derives_width_from_aspect_ratio() {
    assert_eq!(get_output_size((800, 600), (None, Some(300)), 1), (400, 300));
}

#[test]
fn both_dimensions_are_taken_as_given() {
    assert_eq!(get_output_size((800, 600), (Some(123), Some(45)), 1), (123, 45));
}

#[test]
fn no_dimensions_keep_the_source_size() {
    assert_eq!(get_output_size((800, 600), (None, None), 1), (800, 600));
}

#[test]
fn dpr_multiplies_both_dimensions() {
    assert_eq!(get_output_size((800, 600), (Some(400), None), 2), (800, 600));
    assert_eq!(get_output_size((800, 600), (None, None), 3), (2400, 1800));
}

#[test]
fn rounding_is_half_away_from_zero() {
    // 1 * 3 / 2 = 1.5 rounds up to 2.
    assert_eq!(get_output_size((2, 3), (Some(1), None), 1), (1, 2));
    // 1 * 2 / 3 = 0.667 rounds to 1.
    assert_eq!(get_output_size((3, 2), (Some(1), None), 1), (1, 1));
    // 5 * 2 / 4 = 2.5 rounds up to 3.
    assert_eq!(get_output_size((4, 2), (Some(5), None), 1), (5, 3));
}

#[test]
fn oversized_output_is_refused() {
    assert_eq!(checked_output_size((800, 600), (Some(u32::MAX), None), 2), None);
    assert_eq!(
        checked_output_size((800, 600), (Some(400), None), 1),
        Some((400, 300))
    );
}

#[test]
fn dpr_defaults_to_one() {
    assert_eq!(query(None, None, None, None).dpr(), 1);
}

#[test]
fn dpr_is_clamped_into_one_to_three() {
    assert_eq!(query(None, Some(0), None, None).dpr(), 1);
    assert_eq!(query(None, Some(1), None, None).dpr(), 1);
    assert_eq!(query(None, Some(2), None, None).dpr(), 2);
    assert_eq!(query(None, Some(3), None, None).dpr(), 3);
    assert_eq!(query(None, Some(10), None, None).dpr(), 3);
    assert_eq!(query(None, Some(u32::MAX), None, None).dpr(), 3);
}

#[test]
fn size_returns_requested_dimensions() {
    assert_eq!(query(None, None, Some(4), Some(5)).size(), (Some(4), Some(5)));
    assert_eq!(query(None, None, None, None).size(), (None, None));
}

#[test]
fn output_override_resolves_known_formats() {
    let q = query(Some("webp"), None, None, None);
    let d = q.output().unwrap().unwrap();
    assert_eq!(d.class, image_provider::format::FormatClass::WebP);
    assert_eq!(d.mime, "image/webp");

    let q = query(Some("jpeg"), None, None, None);
    let d = q.output().unwrap().unwrap();
    assert_eq!(d.class, image_provider::format::FormatClass::Jpeg);
    assert_eq!(d.mime, "image/jpeg");
}

#[test]
fn output_override_absent_is_ok_none() {
    assert!(query(None, None, None, None).output().unwrap().is_none());
}

#[test]
fn output_override_unknown_is_a_request_error() {
    let q = query(Some("definitely-not-an-image"), None, None, None);
    match q.output() {
        Err(image_provider::error::ImageError::UnsupportedOutputFormat(v)) => {
            assert_eq!(v, "definitely-not-an-image");
        }
        other => panic!("expected an unsupported-output error, got {other:?}"),
    }
}
