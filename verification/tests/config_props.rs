use image_provider::config::AlgorithmKind;
use image_provider::config::FilterKind;
use image_provider::config::ResizeConfig;

#[test]
fn builder_carries_the_defaults() {
    let c = ResizeConfig::builder().build().unwrap();
    assert_eq!(c.filter_type, "lanczos3");
    assert_eq!(c.algorithm, "interpolation");
    assert_eq!(c.cache_size, 200);
}

#[test]
fn builder_setters_override_fields() {
    let c = ResizeConfig::builder()
        .filter_type("box".to_string())
        .algorithm("nearest".to_string())
        .cache_size(7)
        .build()
        .unwrap();
    assert_eq!(c.filter_type, "box");
    assert_eq!(c.algorithm, "nearest");
    assert_eq!(c.cache_size, 7);
}

#[test]
fn valid_names_validate_into_a_plan() {
    let c = ResizeConfig {
        filter_type: "catmull-rom".to_string(),
        algorithm: "super-sampling4x".to_string(),
        cache_size: 32,
    };
    let p = c.validate().unwrap();
    assert_eq!(p.filter, FilterKind::CatmullRom);
    assert_eq!(p.algorithm, AlgorithmKind::SuperSampling4x);
    assert_eq!(p.cache_size, 32);
}

#[test]
fn every_documented_name_is_accepted() {
    for f in ["lanczos3", "gaussian", "catmull-rom", "hamming", "mitchell", "bilinear", "box"] {
        for a in [
            "super-sampling8x",
            "super-sampling4x",
            "super-sampling2x",
            "convolution",
            "interpolation",
            "nearest",
        ] {
            let c = ResizeConfig {
                filter_type: f.to_string(),
                algorithm: a.to_string(),
                cache_size: 1,
            };
            assert!(c.validate().is_ok(), "{f}/{a} should validate");
        }
    }
}

#[test]
fn unknown_filter_is_a_configuration_error() {
    let c = ResizeConfig {
        filter_type: "sharpen".to_string(),
        algorithm: "nearest".to_string(),
        cache_size: 1,
    };
    let e = c.validate().unwrap_err();
    assert!(e.contains("filter type"));
    assert!(e.contains("lanczos3"));
}

#[test]
fn unknown_algorithm_is_a_configuration_error() {
    let c = ResizeConfig {
        filter_type: "box".to_string(),
        algorithm: "quantum".to_string(),
        cache_size: 1,
    };
    let e = c.validate().unwrap_err();
    assert!(e.contains("algorithm"));
    assert!(e.contains("interpolation"));
}

#[test]
fn validated_names_map_to_the_resampler_algorithms() {
    let nearest = ResizeConfig {
        filter_type: "box".to_string(),
        algorithm: "nearest".to_string(),
        cache_size: 1,
    };
    assert_eq!(
        nearest.resize_algorithm(),
        fast_image_resize::ResizeAlg::Nearest
    );

    let conv = ResizeConfig {
        filter_type: "hamming".to_string(),
        algorithm: "convolution".to_string(),
        cache_size: 1,
    };
    assert_eq!(
        conv.resize_algorithm(),
        fast_image_resize::ResizeAlg::Convolution(fast_image_resize::FilterType::Hamming)
    );

    let ss = ResizeConfig {
        filter_type: "lanczos3".to_string(),
        algorithm: "super-sampling8x".to_string(),
        cache_size: 1,
    };
    assert_eq!(
        ss.resize_algorithm(),
        fast_image_resize::ResizeAlg::SuperSampling(fast_image_resize::FilterType::Lanczos3, 8)
    );
}
