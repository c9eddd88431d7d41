use photo_intake::decoder_hooks::{
    complain_of_heif_hooks, complain_of_jpeg_xl_hook, HeifHooks,
};
use photo_intake::raw_limits::{
    raw_decode_plan_for_dimensions, raw_dimensions_require_preview,
    raw_preview_dimensions_are_eligible, validate_raw_dimensions, validate_raw_input_size,
    validate_raw_sample_allocation, validate_raw_side_limit, RawDecodePlan,
};

#[test]
fn accepts_raw_dimensions_at_maximum_side_length() {
    validate_raw_dimensions(50_000, 720, "boundary.raw")
        .expect("the side and 36MP limits should both be inclusive");
}

#[test]
fn raw_development_limit_is_exactly_36_megapixels() {
    assert!(!raw_dimensions_require_preview(6000, 6000, "boundary.raw").unwrap());
    assert!(raw_dimensions_require_preview(6001, 6000, "oversized.raw").unwrap());
}

#[test]
fn raw_preview_requires_full_hd_short_edge() {
    assert!(raw_preview_dimensions_are_eligible(1920, 1080));
    assert!(raw_preview_dimensions_are_eligible(1080, 1920));
    assert!(!raw_preview_dimensions_are_eligible(1920, 1079));
}

#[test]
fn raw_preview_limit_is_exactly_200_megapixels() {
    assert!(raw_preview_dimensions_are_eligible(20_000, 10_000));
    assert!(!raw_preview_dimensions_are_eligible(20_001, 10_000));
}

#[test]
fn plan_depends_on_the_number_of_pixels() {
    assert_eq!(
        raw_decode_plan_for_dimensions(6000, 6000, "a").unwrap(),
        RawDecodePlan::Develop
    );
    assert_eq!(
        raw_decode_plan_for_dimensions(6000, 6001, "a").unwrap(),
        RawDecodePlan::UseEmbeddedPreview
    );
    assert_eq!(
        raw_decode_plan_for_dimensions(0, 6001, "a").unwrap_err().message(),
        "RAW image 'a' decoded to invalid dimensions 0x6001"
    );
    assert_eq!(
        raw_decode_plan_for_dimensions(50_001, 1, "a").unwrap_err().message(),
        "RAW image 'a' is too large to decode safely: dimensions 50001x1 exceeds maximum side length 50000"
    );
}

#[test]
fn development_is_refused_beyond_the_limit() {
    assert_eq!(
        validate_raw_dimensions(6001, 6000, "a").unwrap_err().message(),
        "RAW image 'a' is too large to develop safely: 6001x6000 exceeds 36000000 pixels"
    );
}

#[test]
fn side_limit_names_what_it_limits() {
    assert!(validate_raw_side_limit(50_000, 50_000, "a", "tile").is_ok());
    assert_eq!(
        validate_raw_side_limit(1, 50_001, "a", "tile").unwrap_err().message(),
        "RAW image 'a' is too large to decode safely: tile 1x50001 exceeds maximum side length 50000"
    );
}

#[test]
fn sample_buffer_has_its_own_limit() {
    assert!(validate_raw_sample_allocation(20_000, 10_000, "a").is_ok());
    assert_eq!(
        validate_raw_sample_allocation(20_001, 10_000, "a").unwrap_err().message(),
        "RAW image 'a' is too large to decode safely: decoded sample allocation 20001x10000 exceeds 200000000 samples"
    );
    assert_eq!(
        validate_raw_sample_allocation(0, 1, "a").unwrap_err().message(),
        "RAW image 'a' has invalid decoded sample dimensions 0x1"
    );
    assert_eq!(
        validate_raw_sample_allocation(50_001, 1, "a").unwrap_err().message(),
        "RAW image 'a' is too large to decode safely: decoded sample dimensions 50001x1 exceeds maximum side length 50000"
    );
}

#[test]
fn input_has_a_size_limit() {
    assert!(validate_raw_input_size(268_435_456, "a").is_ok());
    assert_eq!(
        validate_raw_input_size(268_435_457, "a").unwrap_err().message(),
        "RAW image 'a' is too large to decode safely: 268435457 bytes exceeds 268435456 bytes"
    );
}

#[test]
fn limits_ignore_orientation() {
    for (width, height) in [(6001, 6000), (50_000, 720), (50_001, 1), (0, 3)] {
        let upright = raw_decode_plan_for_dimensions(width, height, "a").ok();
        let turned = raw_decode_plan_for_dimensions(height, width, "a").ok();
        assert_eq!(upright, turned);
    }
}

fn hooks(heic: bool, heif: bool, avif: bool) -> HeifHooks {
    HeifHooks { heic, heif, avif }
}

#[test]
fn missing_decoder_hooks_are_told() {
    let all = hooks(true, true, true);
    assert_eq!(complain_of_heif_hooks(all, all), None);
    assert_eq!(
        complain_of_heif_hooks(hooks(false, true, false), hooks(false, false, true)).unwrap(),
        "[ml][decode] failed to activate HEIF/HEIC decoder hooks; registration_result=(heic:false, heif:true, avif:false), active_hooks=(heic:false, heif:false, avif:true)"
    );
    assert_eq!(
        complain_of_heif_hooks(hooks(true, true, false), all).unwrap(),
        "[ml][decode] ente_heic decoder hooks only partially registered (usually because another initializer registered first); registration_result=(heic:true, heif:true, avif:false), active_hooks=(heic:true, heif:true, avif:true)"
    );
    assert_eq!(complain_of_jpeg_xl_hook(false, true), None);
    assert_eq!(
        complain_of_jpeg_xl_hook(true, false).unwrap(),
        "[ml][decode] failed to activate JPEG XL decoder hook; registered_now=true, active_hook=false"
    );
}
