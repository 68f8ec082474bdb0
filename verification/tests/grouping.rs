use astro_grader::files::File;
use astro_grader::fits::FileType;
use astro_grader::grouping::{
    create_session_fingerprint, create_session_match_data, insert_calibration_file,
    master_calibration_matches_session, normalize_file_type, FileKind, FrameMetadata,
    SessionBucket, SessionKind, SessionMatchData,
};

fn test_file(file_type: FileType) -> File {
    File::new(
        "/tmp/test.fits".to_string(),
        "test.fits".to_string(),
        file_type,
        String::new(),
    )
}

fn test_metadata(source_night: &str) -> FrameMetadata {
    FrameMetadata {
        source_night: source_night.to_string(),
        camera: Some("camera-a".to_string()),
        filter: Some("luminance".to_string()),
        telescope: Some("f/5 scope".to_string()),
        exposure: Some(60_000),
        gain: Some(1_000),
        temperature: Some(-20_000),
    }
}

#[test]
fn normalize_file_type_distinguishes_master_variants() {
    assert_eq!(
        normalize_file_type(&FileType::MasterDark),
        FileKind::Calibration {
            kind: SessionKind::Dark,
            is_master: true,
        }
    );
    assert_eq!(
        normalize_file_type(&FileType::MasterFlat),
        FileKind::Calibration {
            kind: SessionKind::Flat,
            is_master: true,
        }
    );
    assert_eq!(
        normalize_file_type(&FileType::MasterBias),
        FileKind::Calibration {
            kind: SessionKind::Bias,
            is_master: true,
        }
    );
}

#[test]
fn master_matching_ignores_temperature_but_keeps_core_tags() {
    let session = SessionMatchData {
        source_night: "2026-03-09".to_string(),
        camera: Some("camera-a".to_string()),
        filter: Some("luminance".to_string()),
        telescope: Some("f/5 scope".to_string()),
        exposure: Some(60_000),
        gain: Some(2_000),
        temperature: Some(-5_000),
    };

    let matching = FrameMetadata {
        source_night: "2026-03-09".to_string(),
        camera: Some("camera-a".to_string()),
        filter: Some("luminance".to_string()),
        telescope: Some("f/5 scope".to_string()),
        exposure: Some(60_000),
        gain: Some(1_000),
        temperature: Some(-20_000),
    };

    let different_temperature = FrameMetadata {
        temperature: Some(-30_000),
        ..matching.clone()
    };

    assert!(master_calibration_matches_session(
        SessionKind::Flat,
        &session,
        &different_temperature
    ));

    let missing_filter = FrameMetadata {
        filter: Some("red".to_string()),
        ..matching.clone()
    };

    assert!(!master_calibration_matches_session(
        SessionKind::Flat,
        &session,
        &missing_filter
    ));
}

#[test]
fn master_dark_prevents_matching_normal_dark_frames() {
    let master_file = test_file(FileType::MasterDark);
    let normal_file = test_file(FileType::Dark);

    let mut buckets = Vec::new();
    let metadata = test_metadata("2026-03-09");

    let bucket = SessionBucket::new(
        "light:2026-03-09:camera-a:luminance:f/5 scope:60.000:1.000:-20.000".to_string(),
        create_session_fingerprint(&metadata),
        create_session_match_data(&metadata),
    );
    buckets.push(bucket);

    insert_calibration_file(
        &mut buckets,
        SessionKind::Dark,
        true,
        metadata.clone(),
        master_file,
    );

    insert_calibration_file(
        &mut buckets,
        SessionKind::Dark,
        false,
        FrameMetadata {
            temperature: Some(-35_000),
            ..metadata
        },
        normal_file,
    );

    let bucket = buckets.first().expect("bucket should exist");
    assert_eq!(bucket.darks.len(), 0);
    assert!(bucket.master_dark.is_some());
}

#[test]
fn normal_dark_can_match_across_nights_when_metadata_matches() {
    let mut buckets = Vec::new();

    let light_metadata = FrameMetadata {
        source_night: "2026-03-05".to_string(),
        camera: Some("camera-a".to_string()),
        filter: Some("luminance".to_string()),
        telescope: None,
        exposure: Some(60_000),
        gain: Some(200_000),
        temperature: Some(-20_000),
    };

    let bucket = SessionBucket::new(
        "light:2026-03-05:camera-a:luminance::60.000:200.000:-20.000".to_string(),
        create_session_fingerprint(&light_metadata),
        create_session_match_data(&light_metadata),
    );
    buckets.push(bucket);

    let dark_metadata_other_night = FrameMetadata {
        source_night: "2026-03-09".to_string(),
        camera: Some("camera-a".to_string()),
        filter: None,
        telescope: Some("scope value present only on dark".to_string()),
        exposure: Some(60_000),
        gain: Some(200_000),
        temperature: Some(-20_000),
    };

    insert_calibration_file(
        &mut buckets,
        SessionKind::Dark,
        false,
        dark_metadata_other_night,
        test_file(FileType::Dark),
    );

    let bucket = buckets.first().expect("bucket should exist");
    assert_eq!(bucket.darks.len(), 1);
}
