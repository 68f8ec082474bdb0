use astro_grader::calibration::{frames_signature, MasterType};
use astro_grader::file_batch::{
    batch_completed, batch_failed, batch_item_done, batch_item_started, batch_started,
    missing_source_error, remove_paths_from_fe_state, validate_batch_request,
};
use astro_grader::files::File;
use astro_grader::fits::{FileType, FrameState};
use astro_grader::progress::{
    FileBatchOperationKind, FileBatchOperationRequest, FileBatchOperationStatus,
};
use astro_grader::session::{AstroSession, FeState, MasterOrFrames, RawNight, SessionFingerprint};
use astro_grader::calibration::build_calibration_pipeline;
use astro_grader::state_updates::{
    book_light_outcome, forget_calibration, LightCalibrationOutcome, lights_to_calibrate, record_light_outcome, remember_master,
    resolve_master_source, set_session_master_path, MasterCacheEntry, MasterSource,
};

fn state_frame(path: &str) -> File {
    File::new(path.to_string(), path.to_string(), FileType::Light, format!("id{}", path))
}

fn state_session(uuid: &str, lights: Vec<File>) -> AstroSession {
    AstroSession {
        uuid: uuid.to_string(),
        fingerprint: SessionFingerprint {
            name: "night".to_string(),
            camera: "cam".to_string(),
            filter: "l".to_string(),
            exposure: 1,
            gain: 2,
            temperature: 3,
        },
        lights,
        darks: MasterOrFrames::Frames(vec![]),
        flats: MasterOrFrames::Frames(vec![]),
        biases: MasterOrFrames::Frames(vec![]),
        master_dark: None,
        master_flat: None,
        master_bias: None,
    }
}

fn state() -> FeState {
    FeState {
        raw_nights: vec![
            RawNight { name: "n1".to_string(), files: vec![state_frame("/a.fits"), state_frame("/b.fits")] },
            RawNight { name: "n2".to_string(), files: vec![state_frame("/c.fits")] },
        ],
        grouped_nights: vec![
            state_session("s1", vec![state_frame("/a.fits"), state_frame("/b.fits")]),
            state_session("s2", vec![state_frame("/c.fits")]),
        ],
        active_grouped_session_uuid: Some("s2".to_string()),
        current_preview_file: Some("/c.fits".to_string()),
    }
}

#[test]
fn a_calibrated_light_is_recorded_in_its_session_and_night() {
    let mut s = state();
    record_light_outcome(&mut s, 0, "/b.fits", "/b_cal.fits");
    let b = &s.grouped_nights[0].lights[1];
    assert_eq!(b.calibrated_frame.as_deref(), Some("/b_cal.fits"));
    assert_eq!(b.state, FrameState::Calibrated);
    assert_eq!(s.grouped_nights[0].lights[0].calibrated_frame, None);
    let raw = &s.raw_nights[0].files[1];
    assert_eq!(raw.calibrated_frame.as_deref(), Some("/b_cal.fits"));
    assert_eq!(raw.state, FrameState::Calibrated);
    assert_eq!(s.raw_nights[1].files[0].state, FrameState::Default);
}

#[test]
fn a_missing_calibrated_copy_is_forgotten() {
    let mut s = state();
    record_light_outcome(&mut s, 1, "/c.fits", "/c_cal.fits");
    forget_calibration(&mut s, 1, 0);
    assert_eq!(s.grouped_nights[1].lights[0].calibrated_frame, None);
    assert_eq!(s.grouped_nights[1].lights[0].state, FrameState::Default);
    assert_eq!(s.raw_nights[1].files[0].calibrated_frame, None);
    assert_eq!(s.raw_nights[1].files[0].state, FrameState::Default);
}

#[test]
fn only_uncalibrated_lights_are_calibrated() {
    let mut done = state_frame("/b.fits");
    done.calibrated_frame = Some("/b_cal.fits".to_string());
    let todo = lights_to_calibrate(&vec![state_frame("/a.fits"), done, state_frame("/c.fits")]);
    let paths: Vec<&str> = todo.iter().map(|f| f.path.as_str()).collect();
    assert_eq!(paths, vec!["/a.fits", "/c.fits"]);
}

#[test]
fn masters_come_from_the_session_the_cache_or_a_new_stack() {
    let given = MasterOrFrames::Master(state_frame("/m/dark.fits"));
    assert!(matches!(
        resolve_master_source(&given, MasterType::Dark, "/tmp", &vec![]),
        MasterSource::Given(p) if p == "/m/dark.fits"
    ));
    let empty = MasterOrFrames::Frames(vec![]);
    assert!(matches!(
        resolve_master_source(&empty, MasterType::Dark, "/tmp", &vec![]),
        MasterSource::Missing
    ));
    let frames = vec![state_frame("/d1.fits"), state_frame("/d2.fits")];
    let signature = frames_signature(&frames);
    let slot = MasterOrFrames::Frames(frames);
    match resolve_master_source(&slot, MasterType::Dark, "/tmp", &vec![]) {
        MasterSource::Stack { signature: s, output_path } => {
            assert_eq!(s, signature);
            assert_eq!(output_path, format!("/tmp/master_dark_{:016x}.fits", signature));
        }
        _ => panic!("a master should be stacked"),
    }
    let mut cache = Vec::new();
    remember_master(&mut cache, MasterType::Dark, signature, "/tmp/first.fits".to_string());
    remember_master(&mut cache, MasterType::Dark, signature, "/tmp/second.fits".to_string());
    assert_eq!(cache.len(), 1);
    assert!(matches!(
        resolve_master_source(&slot, MasterType::Dark, "/tmp", &cache),
        MasterSource::Cached(p) if p == "/tmp/first.fits"
    ));
    assert!(matches!(
        resolve_master_source(&slot, MasterType::Flat, "/tmp", &cache),
        MasterSource::Stack { .. }
    ));
    let entry: &MasterCacheEntry = &cache[0];
    assert_eq!(entry.path, "/tmp/first.fits");
}

#[test]
fn a_session_master_path_is_set_by_type() {
    let mut s = state_session("s", vec![]);
    set_session_master_path(&mut s, MasterType::Flat, Some("/m/flat.fits".to_string()));
    assert_eq!(s.master_flat.as_deref(), Some("/m/flat.fits"));
    assert_eq!(s.master_dark, None);
    set_session_master_path(&mut s, MasterType::Flat, None);
    assert_eq!(s.master_flat, None);
}

#[test]
fn removed_files_leave_nights_and_sessions() {
    let mut s = state();
    remove_paths_from_fe_state(&mut s, &vec!["/c.fits".to_string(), "/a.fits".to_string()]);
    assert_eq!(s.raw_nights.len(), 1);
    assert_eq!(s.raw_nights[0].name, "n1");
    let files: Vec<&str> = s.raw_nights[0].files.iter().map(|f| f.path.as_str()).collect();
    assert_eq!(files, vec!["/b.fits"]);
    assert_eq!(s.grouped_nights.len(), 1);
    assert_eq!(s.grouped_nights[0].uuid, "s1");
    assert_eq!(s.grouped_nights[0].lights.len(), 1);
    assert_eq!(s.active_grouped_session_uuid.as_deref(), Some("s1"));
    assert_eq!(s.current_preview_file, None);
}

#[test]
fn removing_nothing_changes_nothing() {
    let mut s = state();
    s.raw_nights.push(RawNight { name: "empty".to_string(), files: vec![] });
    remove_paths_from_fe_state(&mut s, &vec![]);
    assert_eq!(s.raw_nights.len(), 3);
    assert_eq!(s.grouped_nights.len(), 2);
    assert_eq!(s.active_grouped_session_uuid.as_deref(), Some("s2"));
    assert_eq!(s.current_preview_file.as_deref(), Some("/c.fits"));
}

#[test]
fn removing_everything_clears_the_session_in_view() {
    let mut s = state();
    remove_paths_from_fe_state(
        &mut s,
        &vec!["/a.fits".to_string(), "/b.fits".to_string(), "/c.fits".to_string()],
    );
    assert!(s.raw_nights.is_empty());
    assert!(s.grouped_nights.is_empty());
    assert_eq!(s.active_grouped_session_uuid, None);
    assert_eq!(s.current_preview_file, None);
}

#[test]
fn the_session_in_view_stays_while_it_exists() {
    let mut s = state();
    remove_paths_from_fe_state(&mut s, &vec!["/a.fits".to_string()]);
    assert_eq!(s.active_grouped_session_uuid.as_deref(), Some("s2"));
    assert_eq!(s.current_preview_file.as_deref(), Some("/c.fits"));
    assert_eq!(s.grouped_nights[0].lights.len(), 1);
}

#[test]
fn batch_requests_need_files_and_a_target_for_moves() {
    let no_files = FileBatchOperationRequest {
        operation: FileBatchOperationKind::Delete,
        paths: vec![],
        target_directory: None,
    };
    assert_eq!(validate_batch_request(&no_files), Err("No files selected".to_string()));
    let no_target = FileBatchOperationRequest {
        operation: FileBatchOperationKind::Move,
        paths: vec!["/a.fits".to_string()],
        target_directory: None,
    };
    assert_eq!(
        validate_batch_request(&no_target),
        Err("A target directory is required for move operations".to_string())
    );
    let delete = FileBatchOperationRequest {
        operation: FileBatchOperationKind::Delete,
        paths: vec!["/a.fits".to_string()],
        target_directory: None,
    };
    assert_eq!(validate_batch_request(&delete), Ok(()));
    let mv = FileBatchOperationRequest {
        operation: FileBatchOperationKind::Move,
        paths: vec!["/a.fits".to_string()],
        target_directory: Some("/t".to_string()),
    };
    assert_eq!(validate_batch_request(&mv), Ok(()));
}

#[test]
fn a_batch_reports_its_progress() {
    let request = FileBatchOperationRequest {
        operation: FileBatchOperationKind::Move,
        paths: vec!["/a.fits".to_string(), "/b.fits".to_string()],
        target_directory: Some("/t".to_string()),
    };
    let mut p = batch_started(&request, 100);
    assert_eq!(p.status, FileBatchOperationStatus::Running);
    assert_eq!(p.total_count, 2);
    assert_eq!(p.processed_count, 0);
    batch_item_started(&mut p, "/a.fits");
    assert_eq!(p.current_path.as_deref(), Some("/a.fits"));
    batch_item_done(&mut p);
    assert_eq!(p.processed_count, 1);
    batch_completed(&mut p, 200);
    assert_eq!(p.status, FileBatchOperationStatus::Completed);
    assert_eq!(p.finished_at, Some(200));
    assert_eq!(p.current_path, None);

    let mut q = batch_started(&request, 100);
    batch_item_started(&mut q, "/a.fits");
    batch_failed(&mut q, 150, missing_source_error("/a.fits"));
    assert_eq!(q.status, FileBatchOperationStatus::Failed);
    assert_eq!(q.finished_at, Some(150));
    assert_eq!(q.error.as_deref(), Some("Source file no longer exists: /a.fits"));
    assert_eq!(q.current_path.as_deref(), Some("/a.fits"));
}

#[test]
fn pipeline_outcomes_are_booked_into_state_and_step() {
    let mut s = state();
    let (_, mut progress) = build_calibration_pipeline(&s.grouped_nights, 0);
    let step = progress.steps.iter().position(|st| st.id == "s1:Light").unwrap();
    let counts = book_light_outcome(
        &mut s,
        &mut progress,
        0,
        step,
        0,
        0,
        LightCalibrationOutcome::Processed {
            source_path: "/a.fits".to_string(),
            calibrated_path: "/a_cal.fits".to_string(),
        },
    );
    assert_eq!(counts, (1, 0));
    let counts = book_light_outcome(
        &mut s,
        &mut progress,
        0,
        step,
        counts.0,
        counts.1,
        LightCalibrationOutcome::Skipped {
            source_path: "/b.fits".to_string(),
            calibrated_path: "/b_cal.fits".to_string(),
        },
    );
    assert_eq!(counts, (1, 1));
    assert_eq!(progress.steps[step].completed_count, 1);
    assert_eq!(progress.steps[step].skipped_count, 1);
    assert_eq!(s.grouped_nights[0].lights[0].calibrated_frame.as_deref(), Some("/a_cal.fits"));
    assert_eq!(s.raw_nights[0].files[1].calibrated_frame.as_deref(), Some("/b_cal.fits"));
    assert_eq!(s.raw_nights[0].files[1].state, FrameState::Calibrated);
}
