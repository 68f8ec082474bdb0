use astro_grader::calibration::{build_calibration_pipeline, MasterType};
use astro_grader::file_batch::remove_paths_from_fe_state;
use astro_grader::files::{file_type_from_image_type, File};
use astro_grader::fits::{FileType, FrameState};
use astro_grader::grading::second_pass_state;
use astro_grader::grouping::{format_optional_text, frame_metadata_from_tags, round_to_step};
use astro_grader::paths::strip_ext;
use astro_grader::scan::has_listed_extension;
use astro_grader::session::{AstroSession, FeState, MasterOrFrames, RawNight, SessionFingerprint};
use astro_grader::state_updates::start_light_step;
use astro_grader::text::milli_to_text;
use astro_grader::tiles::{
    defect_class_name, frame_tiles, summarize_anomalies, tile_origins, TileAnomaly, DEFECT_CLASS_COUNT,
    TILE_SIZE, TILE_STRIDE,
};

fn light(path: &str, calibrated: Option<&str>) -> File {
    let mut f = File::new(path.to_string(), path.to_string(), FileType::Light, format!("id{}", path));
    f.calibrated_frame = calibrated.map(|c| c.to_string());
    f
}

fn session(uuid: &str, lights: Vec<File>) -> AstroSession {
    AstroSession {
        uuid: uuid.to_string(),
        fingerprint: SessionFingerprint {
            name: "night".to_string(),
            camera: "cam".to_string(),
            filter: "l".to_string(),
            exposure: 1,
            gain: 2,
            temperature: 3,
        },
        lights,
        darks: MasterOrFrames::Frames(vec![]),
        flats: MasterOrFrames::Frames(vec![]),
        biases: MasterOrFrames::Frames(vec![]),
        master_dark: None,
        master_flat: None,
        master_bias: None,
    }
}

fn anomaly(x: usize, y: usize, class_name: &str) -> TileAnomaly {
    TileAnomaly { x, y, class_name: class_name.to_string() }
}

#[test]
fn stems_and_extensions_split_at_the_last_dot() {
    assert_eq!(strip_ext("/data/m31.tar.gz"), "m31.tar");
    assert_eq!(strip_ext("/data/.hidden"), ".hidden");
    assert_eq!(strip_ext("/data/.hidden.fits"), ".hidden");
    assert_eq!(strip_ext("/data/README"), "README");
    assert_eq!(strip_ext("/data/frame."), "frame");
    let exts = vec!["gz".to_string(), "".to_string()];
    assert!(has_listed_extension("/data/m31.tar.gz", &exts));
    assert!(has_listed_extension("/data/frame.", &exts));
    assert!(!has_listed_extension("/data/.gz", &exts));
}

#[test]
fn masters_read_back_as_masters() {
    for (t, expected) in [
        (MasterType::Dark, FileType::MasterDark),
        (MasterType::Flat, FileType::MasterFlat),
        (MasterType::Bias, FileType::MasterBias),
    ] {
        assert_eq!(file_type_from_image_type(Some(t.as_image_type_value())), expected);
    }
    assert_eq!(file_type_from_image_type(Some("Master Dark")), FileType::MasterDark);
    assert_eq!(file_type_from_image_type(Some("LIGHT")), FileType::Light);
}

#[test]
fn ascii_header_texts_are_lower_cased() {
    assert_eq!(format_optional_text(Some("  ZWO ASI2600MM ")), "zwo asi2600mm");
    assert_eq!(format_optional_text(Some("Hα")), "hα");
    assert_eq!(format_optional_text(None), "");
    let m = frame_metadata_from_tags("n1", Some(" Canon EOS "), Some("   "), None, Some(1000), None, None);
    assert_eq!(m.camera.as_deref(), Some("canon eos"));
    assert_eq!(m.filter, None);
    assert_eq!(m.telescope, None);
}

#[test]
fn exact_thousandths_round_halfway_values() {
    assert_eq!(milli_to_text(165, 2), "0.16");
    assert_eq!(milli_to_text(175, 2), "0.18");
    assert_eq!(milli_to_text(-20150, 1), "-20.2");
    assert_eq!(round_to_step(Some(350), 100), Some(400));
    assert_eq!(round_to_step(Some(-350), 100), Some(-400));
}

#[test]
fn the_light_step_starts_with_calibrated_frames_skipped() {
    let lights = vec![light("/a.fits", Some("/a_cal.fits")), light("/b.fits", None), light("/c.fits", Some("/c_cal.fits"))];
    let sessions = vec![session("s1", lights.clone())];
    let (_, mut progress) = build_calibration_pipeline(&sessions, 0);
    let step = progress.steps.iter().position(|st| st.id == "s1:Light").unwrap();
    let (to_do, skipped) = start_light_step(&mut progress, step, &lights);
    assert_eq!(skipped, 2);
    assert_eq!(to_do.len(), 1);
    assert_eq!(to_do[0].path, "/b.fits");
    assert_eq!(progress.steps[step].completed_count, 0);
    assert_eq!(progress.steps[step].skipped_count, 2);
    let before = progress.steps.len();
    let (all, none) = start_light_step(&mut progress, before, &vec![light("/d.fits", None)]);
    assert_eq!((all.len(), none), (1, 0));
    assert_eq!(progress.steps[step].skipped_count, 2);
}

#[test]
fn a_first_pass_rejection_is_never_undone() {
    assert_eq!(second_pass_state(FrameState::Rejected, FrameState::Accepted), FrameState::Rejected);
    assert_eq!(second_pass_state(FrameState::Accepted, FrameState::Rejected), FrameState::Rejected);
    assert_eq!(second_pass_state(FrameState::Calibrated, FrameState::Accepted), FrameState::Accepted);
    assert_eq!(second_pass_state(FrameState::Default, FrameState::Accepted), FrameState::Accepted);
}

#[test]
fn tiles_reach_the_far_edge() {
    assert_eq!((TILE_SIZE, TILE_STRIDE), (512, 460));
    assert_eq!(tile_origins(1024, TILE_SIZE, TILE_STRIDE), vec![0, 460, 512]);
    assert_eq!(tile_origins(972, TILE_SIZE, TILE_STRIDE), vec![0, 460]);
    assert_eq!(tile_origins(512, TILE_SIZE, TILE_STRIDE), vec![0]);
    assert_eq!(tile_origins(300, TILE_SIZE, TILE_STRIDE), vec![0]);
    assert_eq!(tile_origins(2000, TILE_SIZE, TILE_STRIDE), vec![0, 460, 920, 1380, 1488]);
    assert_eq!(tile_origins(10, 4, 3), vec![0, 3, 6]);
    assert_eq!(tile_origins(11, 4, 3), vec![0, 3, 6, 7]);
    let tiles = frame_tiles(1024, 600);
    assert_eq!(
        tiles,
        vec![(0, 0), (460, 0), (512, 0), (0, 88), (460, 88), (512, 88)]
    );
    for px in [0usize, 511, 972, 1023] {
        for py in [0usize, 599] {
            assert!(tiles.iter().any(|&(x, y)| x <= px && px < x + 512 && y <= py && py < y + 512));
        }
    }
}

#[test]
fn the_defect_classes_come_in_model_order() {
    let names: Vec<&str> = (0..DEFECT_CLASS_COUNT).map(defect_class_name).collect();
    assert_eq!(names, vec!["satellite_streak", "airplane", "cloud", "obstruction", "star_trail"]);
}

#[test]
fn an_inspection_lists_each_flagged_class_once() {
    let clean = summarize_anomalies(&vec![]);
    assert!(clean.is_clean);
    assert!(clean.detected_defects.is_empty());
    let found = summarize_anomalies(&vec![
        anomaly(0, 0, "cloud"),
        anomaly(460, 0, "airplane"),
        anomaly(512, 0, "cloud"),
        anomaly(0, 460, "airplane"),
    ]);
    assert!(!found.is_clean);
    assert_eq!(found.detected_defects, vec!["cloud".to_string(), "airplane".to_string()]);
}

#[test]
fn removing_frames_keeps_night_names_apart() {
    let mut s = FeState {
        raw_nights: vec![
            RawNight { name: "n1".to_string(), files: vec![light("/a.fits", None)] },
            RawNight { name: "n2".to_string(), files: vec![light("/b.fits", None), light("/c.fits", None)] },
            RawNight { name: "n3".to_string(), files: vec![light("/d.fits", None)] },
        ],
        grouped_nights: vec![session("s1", vec![light("/a.fits", None), light("/b.fits", None)])],
        active_grouped_session_uuid: Some("s1".to_string()),
        current_preview_file: None,
    };
    remove_paths_from_fe_state(&mut s, &vec!["/a.fits".to_string(), "/c.fits".to_string()]);
    let names: Vec<&str> = s.raw_nights.iter().map(|n| n.name.as_str()).collect();
    assert_eq!(names, vec!["n2", "n3"]);
    assert_eq!(s.raw_nights[0].files.len(), 1);
}
