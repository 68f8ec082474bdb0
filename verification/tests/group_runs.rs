use astro_grader::files::File;
use astro_grader::fits::FileType;
use astro_grader::grouping::{group_preview_nights, FrameMetadata, GroupInput};
use astro_grader::session::MasterOrFrames;

fn scan_frame(path: &str, file_type: FileType) -> File {
    File::new(
        path.to_string(),
        path.rsplit('/').next().unwrap().to_string(),
        file_type,
        format!("id{}", path),
    )
}

fn meta(night: &str, camera: &str, filter: Option<&str>, exposure: Option<i64>) -> FrameMetadata {
    FrameMetadata {
        source_night: night.to_string(),
        camera: Some(camera.to_string()),
        filter: filter.map(|f| f.to_string()),
        telescope: None,
        exposure,
        gain: Some(100_000),
        temperature: Some(-10_000),
    }
}

fn input(path: &str, file_type: FileType, metadata: Option<FrameMetadata>) -> GroupInput {
    GroupInput {
        file: scan_frame(path, file_type),
        metadata,
    }
}

fn frames_of(slot: &MasterOrFrames) -> Vec<String> {
    match slot {
        MasterOrFrames::Frames(v) => v.iter().map(|f| f.path.clone()).collect(),
        MasterOrFrames::Master(m) => vec![format!("master {}", m.path)],
    }
}

fn scan() -> Vec<GroupInput> {
    vec![
        input("/n10/l1.fits", FileType::Light, Some(meta("2026-03-10", "cam", Some("l"), Some(60_000)))),
        input("/n09/l2.fits", FileType::Light, Some(meta("2026-03-09", "cam", Some("r"), Some(60_000)))),
        input("/n09/l3.fits", FileType::Light, Some(meta("2026-03-09", "cam", Some("l"), Some(60_000)))),
        input("/n09/l4.fits", FileType::Light, Some(meta("2026-03-09", "cam", Some("l"), Some(60_004)))),
        input("/cal/d1.fits", FileType::Dark, Some(meta("darks", "cam", None, Some(60_000)))),
        input("/n09/f1.fits", FileType::Flat, Some(meta("2026-03-09", "cam", Some("l"), None))),
        input("/cal/b1.fits", FileType::Bias, Some(meta("2026-03-09", "other", None, None))),
        input("/n09/broken.fits", FileType::Light, None),
    ]
}

#[test]
fn grouping_forms_sorted_sessions_and_files_calibration_frames() {
    let sessions = group_preview_nights(&scan(), 1_000, 1_000, 1_000);
    let uuids: Vec<&str> = sessions.iter().map(|s| s.uuid.as_str()).collect();
    assert_eq!(
        uuids,
        vec![
            "bias:2026-03-09:other::::100.000:-10.000",
            "light:2026-03-09:cam:l::60.000:100.000:-10.000",
            "light:2026-03-09:cam:r::60.000:100.000:-10.000",
            "light:2026-03-10:cam:l::60.000:100.000:-10.000",
        ]
    );

    let lights: Vec<Vec<&str>> = sessions
        .iter()
        .map(|s| s.lights.iter().map(|f| f.path.as_str()).collect())
        .collect();
    assert_eq!(
        lights,
        vec![
            vec![],
            vec!["/n09/l3.fits", "/n09/l4.fits"],
            vec!["/n09/l2.fits"],
            vec!["/n10/l1.fits"],
        ]
    );

    assert_eq!(frames_of(&sessions[0].biases), vec!["/cal/b1.fits".to_string()]);
    for s in &sessions[1..] {
        assert_eq!(frames_of(&s.darks), vec!["/cal/d1.fits".to_string()]);
        assert!(frames_of(&s.biases).is_empty());
    }
    assert_eq!(frames_of(&sessions[1].flats), vec!["/n09/f1.fits".to_string()]);
    assert!(frames_of(&sessions[2].flats).is_empty());
    assert_eq!(frames_of(&sessions[3].flats), vec!["/n09/f1.fits".to_string()]);
    assert_eq!(sessions[1].fingerprint.exposure, 60_000);
    assert_eq!(sessions[0].fingerprint.filter, "");
}

#[test]
fn without_rounding_nearby_exposures_form_separate_sessions() {
    let sessions = group_preview_nights(&scan(), 0, 0, 0);
    let uuids: Vec<&str> = sessions.iter().map(|s| s.uuid.as_str()).collect();
    assert_eq!(
        uuids,
        vec![
            "bias:2026-03-09:other::::100.000:-10.000",
            "light:2026-03-09:cam:l::60.000:100.000:-10.000",
            "light:2026-03-09:cam:l::60.004:100.000:-10.000",
            "light:2026-03-09:cam:r::60.000:100.000:-10.000",
            "light:2026-03-10:cam:l::60.000:100.000:-10.000",
        ]
    );
}

#[test]
fn a_master_frame_takes_the_place_of_ordinary_frames() {
    let mut inputs = scan();
    inputs.push(input(
        "/cal/master_dark.fits",
        FileType::MasterDark,
        Some(meta("elsewhere", "cam", None, Some(60_000))),
    ));
    let sessions = group_preview_nights(&inputs, 1_000, 1_000, 1_000);
    for s in &sessions[1..] {
        assert_eq!(
            frames_of(&s.darks),
            vec!["master /cal/master_dark.fits".to_string()]
        );
    }
}

#[test]
fn every_light_frame_lands_in_exactly_one_session() {
    let sessions = group_preview_nights(&scan(), 1_000, 1_000, 1_000);
    let mut all: Vec<&str> = sessions
        .iter()
        .flat_map(|s| s.lights.iter().map(|f| f.path.as_str()))
        .collect();
    all.sort();
    assert_eq!(
        all,
        vec!["/n09/l2.fits", "/n09/l3.fits", "/n09/l4.fits", "/n10/l1.fits"]
    );
    let mut uuids: Vec<&str> = sessions.iter().map(|s| s.uuid.as_str()).collect();
    uuids.dedup();
    assert_eq!(uuids.len(), sessions.len());
}
