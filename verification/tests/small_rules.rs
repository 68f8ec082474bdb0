use astro_grader::calibration::MasterType;
use astro_grader::config::{default_false, CalibrationStorageMode};
use astro_grader::files::{file_from_header, file_type_from_image_type, file_type_from_lowercase};
use astro_grader::fits::{get_tag, normalize_offset, FileType, FrameState, ImageDataLayout, Tag};
use astro_grader::headers::{header_plan, master_write_error, HeaderWrite, SourceHeader};
use astro_grader::pixels::ImageGeometry;
use astro_grader::scan::{has_listed_extension, scan_count_reported};
use astro_grader::session::SessionFingerprint;
use astro_grader::session_order::{fingerprint_precedes, sort_texts};
use astro_grader::stacking::{
    check_temp_folder, dimensions_agree, empty_stack_error, frame_matches_first,
    incompatible_stack_error, output_size_acceptable, stack_method, StackMethod,
};

#[test]
fn header_tags_have_their_keys_in_order() {
    assert_eq!(get_tag(Tag::Camera), &["INSTRUME", "CCDNAME", "CAMERA"]);
    assert_eq!(get_tag(Tag::BayerPattern), &["BAYERPAT", "COLORTYP"]);
    assert_eq!(get_tag(Tag::NAXIS2), &["NAXIS2"]);
    assert_eq!(get_tag(Tag::Temperature), &["CCD-TEMP", "SET-TEMP"]);
}

#[test]
fn bayer_offsets_count_back_from_two() {
    assert_eq!(normalize_offset(None), 0);
    assert_eq!(normalize_offset(Some(1)), 1);
    assert_eq!(normalize_offset(Some(-1)), 1);
    assert_eq!(normalize_offset(Some(-2)), 0);
}

#[test]
fn frame_types_are_read_from_imagetyp() {
    assert_eq!(file_type_from_lowercase("master light"), FileType::Light);
    assert_eq!(file_type_from_lowercase("master dark"), FileType::MasterDark);
    assert_eq!(file_type_from_lowercase("flat field"), FileType::Light);
    assert_eq!(file_type_from_image_type(Some("Bias")), FileType::Bias);
    assert_eq!(file_type_from_image_type(Some("MASTER FLAT")), FileType::MasterFlat);
    assert_eq!(file_type_from_image_type(None), FileType::Light);
    let f = file_from_header("/data/n1/dark_001.fits".to_string(), Some("Dark"), "u1".to_string());
    assert_eq!(f.name, "dark_001.fits");
    assert_eq!(f.file_type, FileType::Dark);
    assert_eq!(f.uuid, "u1");
    assert_eq!(f.state, FrameState::Default);
    assert_eq!(f.calibrated_frame, None);
}

#[test]
fn defaults_of_the_settings() {
    assert!(!default_false());
    assert_eq!(CalibrationStorageMode::default(), CalibrationStorageMode::NextToOriginal);
    assert_eq!(FrameState::default(), FrameState::Default);
}

#[test]
fn output_headers_copy_the_source_in_a_fixed_order() {
    let source = SourceHeader {
        camera: Some("  ZWO  ".to_string()),
        telescope: None,
        filter: Some("Ha".to_string()),
        has_exposure: true,
        has_gain: false,
        bayer_pattern: Some(" RGGB".to_string()),
        x_bayer_offset: Some(1),
        y_bayer_offset: None,
    };
    let plan = header_plan("master dark", &source);
    let keys: Vec<String> = plan
        .iter()
        .map(|w| match w {
            HeaderWrite::Text { key, value } => format!("{key}={value}"),
            HeaderWrite::Int { key, value } => format!("{key}={value}"),
            HeaderWrite::CopyFloat { key, tag } => format!("{key}<-{tag:?}"),
        })
        .collect();
    assert_eq!(
        keys,
        vec![
            "IMAGETYP=master dark",
            "INSTRUME=ZWO",
            "FILTER=Ha",
            "EXPTIME<-ExposureTime",
            "BAYERPAT=RGGB",
            "XBAYROFF=1",
        ]
    );
    assert_eq!(master_write_error("GAIN"), "Unable to write GAIN into master frame");
}

#[test]
fn how_masters_are_stacked() {
    assert_eq!(stack_method(MasterType::Dark, 6), StackMethod::SigmaClippedMean);
    assert_eq!(stack_method(MasterType::Dark, 5), StackMethod::Median);
    assert_eq!(stack_method(MasterType::Flat, 20), StackMethod::Median);
    assert_eq!(stack_method(MasterType::Bias, 50), StackMethod::Median);
    assert_eq!(empty_stack_error(MasterType::Flat), "Cannot produce master flat from empty frame list");
    assert_eq!(
        incompatible_stack_error(MasterType::Dark),
        "Incompatible frame dimensions/layout while building master dark"
    );
    let a = ImageGeometry { depth: 1, width: 10, height: 5, layout: ImageDataLayout::Grayscale };
    let b = ImageGeometry { depth: 1, width: 10, height: 5, layout: ImageDataLayout::Grayscale };
    let c = ImageGeometry { depth: 3, width: 10, height: 5, layout: ImageDataLayout::RGBPlanar };
    assert!(frame_matches_first(&a, 50, &b, 50));
    assert!(!frame_matches_first(&a, 50, &b, 51));
    assert!(!frame_matches_first(&a, 50, &c, 50));
}

#[test]
fn temp_folders_and_existing_outputs_are_checked() {
    assert_eq!(check_temp_folder("/tmp", true, true), Ok(()));
    assert_eq!(
        check_temp_folder("/nope", false, false),
        Err("Temp folder for master frames does not exist: /nope".to_string())
    );
    assert_eq!(
        check_temp_folder("/file", true, false),
        Err("Temp folder path is not a directory: /file".to_string())
    );
    assert!(output_size_acceptable(Some(2880)));
    assert!(!output_size_acceptable(Some(2879)));
    assert!(!output_size_acceptable(None));
    assert!(dimensions_agree(Some(10), Some(5), Some(10), Some(5)));
    assert!(dimensions_agree(None, Some(5), Some(0), Some(5)));
    assert!(!dimensions_agree(Some(10), Some(5), Some(10), Some(6)));
}

#[test]
fn scans_take_listed_extensions_and_report_every_fifty() {
    let exts = vec!["fits".to_string(), "fit".to_string()];
    assert!(has_listed_extension("/data/m31.fits", &exts));
    assert!(has_listed_extension("/data/m31.tar.fit", &exts));
    assert!(!has_listed_extension("/data/m31.FITS", &exts));
    assert!(!has_listed_extension("/data/README", &exts));
    assert!(!has_listed_extension("/data/.fits", &exts));
    assert!(scan_count_reported(50));
    assert!(scan_count_reported(100));
    assert!(!scan_count_reported(51));
}

fn fp(name: &str, filter: &str, exposure: i64, gain: i64, temperature: i64) -> SessionFingerprint {
    SessionFingerprint {
        name: name.to_string(),
        camera: String::new(),
        filter: filter.to_string(),
        exposure,
        gain,
        temperature,
    }
}

#[test]
fn sessions_are_ordered_by_night_filter_and_settings() {
    assert!(fingerprint_precedes(&fp("a", "z", 9, 9, 9), &fp("b", "a", 0, 0, 0)));
    assert!(fingerprint_precedes(&fp("a", "a", 9, 9, 9), &fp("a", "b", 0, 0, 0)));
    assert!(fingerprint_precedes(&fp("a", "a", 1, 9, 9), &fp("a", "a", 2, 0, 0)));
    assert!(fingerprint_precedes(&fp("a", "a", 1, 1, 9), &fp("a", "a", 1, 2, 0)));
    assert!(fingerprint_precedes(&fp("a", "a", 1, 1, -20), &fp("a", "a", 1, 1, -10)));
    assert!(!fingerprint_precedes(&fp("a", "a", 1, 1, 1), &fp("a", "a", 1, 1, 1)));
    assert!(fingerprint_precedes(&fp("2026", "", 0, 0, 0), &fp("2026", "l", 0, 0, 0)));
    let sorted = sort_texts(vec!["b".to_string(), "a".to_string(), "B".to_string(), "ab".to_string()]);
    assert_eq!(sorted, vec!["B", "a", "ab", "b"]);
}
