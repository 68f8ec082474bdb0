use astro_grader::grouping::{
    approx_equal, calibration_session_key, format_optional_float, format_optional_text,
    frame_metadata_from_tags, light_session_key, master_calibration_session_key,
    matches_optional_float, matches_optional_text, round_to_step, FrameMetadata, SessionKind,
};
use astro_grader::paths::{build_move_target, normalize_path, path_name, strip_ext};
use astro_grader::text::{decimal_text, hex16, milli_to_text, text_equal};

fn metadata() -> FrameMetadata {
    FrameMetadata {
        source_night: "2026-03-09".to_string(),
        camera: Some("camera-a".to_string()),
        filter: Some("luminance".to_string()),
        telescope: Some("f/5 scope".to_string()),
        exposure: Some(60_000),
        gain: Some(1_000),
        temperature: Some(-20_000),
    }
}

#[test]
fn thousandths_print_with_the_asked_decimals() {
    assert_eq!(milli_to_text(60_000, 3), "60.000");
    assert_eq!(milli_to_text(-20_000, 3), "-20.000");
    assert_eq!(milli_to_text(1_500, 2), "1.50");
    assert_eq!(milli_to_text(-500, 1), "-0.5");
    assert_eq!(milli_to_text(0, 3), "0.000");
    assert_eq!(milli_to_text(2_250, 1), "2.2");
    assert_eq!(milli_to_text(-1, 1), "-0.0");
}

#[test]
fn numbers_print_in_decimal_and_hex() {
    assert_eq!(decimal_text(0), "0");
    assert_eq!(decimal_text(12345), "12345");
    assert_eq!(hex16(255), "00000000000000ff");
    assert_eq!(hex16(u64::MAX), "ffffffffffffffff");
    assert!(text_equal("abc", "abc"));
    assert!(!text_equal("abc", "abd"));
}

#[test]
fn key_fields_are_trimmed_lowercase_and_three_decimals() {
    assert_eq!(format_optional_text(Some("  Camera-A ")), "camera-a");
    assert_eq!(format_optional_text(None), "");
    assert_eq!(format_optional_float(Some(60_000)), "60.000");
    assert_eq!(format_optional_float(Some(-35_500)), "-35.500");
    assert_eq!(format_optional_float(None), "");
}

#[test]
fn session_keys_spell_out_the_settings() {
    let m = metadata();
    assert_eq!(
        light_session_key(&m),
        "light:2026-03-09:camera-a:luminance:f/5 scope:60.000:1.000:-20.000"
    );
    assert_eq!(
        calibration_session_key(SessionKind::Dark, &m),
        "dark:2026-03-09:camera-a:luminance:f/5 scope:60.000:1.000:-20.000"
    );
    assert_eq!(
        master_calibration_session_key(SessionKind::Flat, &m),
        "master-flat:2026-03-09:camera-a:luminance:f/5 scope:60.000"
    );
    let bare = FrameMetadata {
        telescope: None,
        gain: None,
        ..m
    };
    assert_eq!(
        light_session_key(&bare),
        "light:2026-03-09:camera-a:luminance::60.000::-20.000"
    );
}

#[test]
fn header_tags_are_trimmed_lowercased_and_blank_ones_dropped() {
    let m = frame_metadata_from_tags(
        "night",
        Some("  ZWO ASI2600 "),
        Some("   "),
        None,
        Some(300_000),
        None,
        Some(-10_000),
    );
    assert_eq!(m.source_night, "night");
    assert_eq!(m.camera.as_deref(), Some("zwo asi2600"));
    assert_eq!(m.filter, None);
    assert_eq!(m.telescope, None);
    assert_eq!(m.exposure, Some(300_000));
    assert_eq!(m.gain, None);
    assert_eq!(m.temperature, Some(-10_000));
}

#[test]
fn rounding_to_a_step_goes_half_away_from_zero() {
    assert_eq!(round_to_step(Some(1_400), 1_000), Some(1_000));
    assert_eq!(round_to_step(Some(1_500), 1_000), Some(2_000));
    assert_eq!(round_to_step(Some(-1_500), 1_000), Some(-2_000));
    assert_eq!(round_to_step(Some(-1_400), 1_000), Some(-1_000));
    assert_eq!(round_to_step(Some(-20_400), 1_000), Some(-20_000));
    assert_eq!(round_to_step(Some(1_234), 0), Some(1_234));
    assert_eq!(round_to_step(Some(1_234), -5), Some(1_234));
    assert_eq!(round_to_step(None, 1_000), None);
}

#[test]
fn settings_match_within_a_hundredth() {
    assert!(approx_equal(1_000, 1_010));
    assert!(approx_equal(1_010, 1_000));
    assert!(!approx_equal(1_000, 1_011));
    assert!(matches_optional_float(Some(60_000), Some(60_005)));
    assert!(!matches_optional_float(None, Some(60_000)));
    assert!(matches_optional_float(None, None));
    assert!(matches_optional_float(Some(1), None));
    assert!(matches_optional_text(Some("a"), Some("a")));
    assert!(!matches_optional_text(Some("a"), Some("b")));
    assert!(!matches_optional_text(None, Some("a")));
    assert!(matches_optional_text(None, None));
}

#[test]
fn paths_normalize_to_forward_slashes_without_trailing_ones() {
    assert_eq!(normalize_path("C:\\frames\\night\\"), "C:/frames/night");
    assert_eq!(normalize_path("/"), "/");
    assert_eq!(normalize_path("a///"), "a");
    assert_eq!(normalize_path("a/b"), "a/b");
}

#[test]
fn path_names_and_move_targets() {
    assert_eq!(strip_ext("/data/m31.fits"), "m31");
    assert_eq!(strip_ext("/"), "out");
    assert_eq!(path_name("/data/m31.fits"), Ok("m31.fits".to_string()));
    assert_eq!(path_name("/"), Err("Path has no file name: /".to_string()));
    assert_eq!(
        build_move_target("/target", "/data/m31.fits"),
        Ok("/target/m31.fits".to_string())
    );
    assert_eq!(
        build_move_target("/target", "/"),
        Err("Path has no file name: /".to_string())
    );
}
