use astro_grader::calibration::{
    build_calibration_pipeline, frames_signature, kind_label, master_file_name,
    master_type_to_step_kind, session_label, CalibrationWorkItem, CalibrationWorkItemTask,
    MasterType,
};
use astro_grader::calibration_run::{
    begin_step, calibrated_target_path, cancellation_result, check_cancelled, complete_run,
    finish_step, master_output_path, pipeline_thread_counts, set_step_counts,
    CalibrationCancellation,
};
use astro_grader::config::CalibrationStorageMode;
use astro_grader::files::File;
use astro_grader::fits::FileType;
use astro_grader::progress::{CalibrationRunStatus, CalibrationStepKind, CalibrationStepStatus};
use astro_grader::session::{AstroSession, MasterOrFrames, SessionFingerprint};
use std::sync::atomic::{AtomicBool, Ordering};

fn plan_frame(path: &str, file_type: FileType, uuid: &str) -> File {
    File::new(path.to_string(), path.to_string(), file_type, uuid.to_string())
}

fn fingerprint(name: &str) -> SessionFingerprint {
    SessionFingerprint {
        name: name.to_string(),
        camera: "cam".to_string(),
        filter: "l".to_string(),
        exposure: 60_000,
        gain: 100_000,
        temperature: -10_000,
    }
}

fn plan_session(uuid: &str, lights: Vec<File>, darks: MasterOrFrames, flats: MasterOrFrames) -> AstroSession {
    AstroSession {
        uuid: uuid.to_string(),
        fingerprint: fingerprint("2026-03-09"),
        lights,
        darks,
        flats,
        biases: MasterOrFrames::Frames(vec![]),
        master_dark: None,
        master_flat: None,
        master_bias: None,
    }
}

fn darks() -> MasterOrFrames {
    MasterOrFrames::Frames(vec![
        plan_frame("/d/1.fits", FileType::Dark, "d1"),
        plan_frame("/d/2.fits", FileType::Dark, "d2"),
    ])
}

#[test]
fn the_signature_ignores_frame_order_and_hashes_sorted_identities() {
    let a = vec![plan_frame("/a", FileType::Dark, "b"), plan_frame("/b", FileType::Dark, "a")];
    let b = vec![plan_frame("/b", FileType::Dark, "a"), plan_frame("/a", FileType::Dark, "b")];
    assert_eq!(frames_signature(&a), frames_signature(&b));
    assert_eq!(frames_signature(&a), twox_hash::XxHash3_64::oneshot(b"ab"));
    let c = vec![plan_frame("/c", FileType::Dark, "c")];
    assert_ne!(frames_signature(&a), frames_signature(&c));
}

#[test]
fn master_names_and_labels() {
    assert_eq!(master_file_name(MasterType::Dark, 255), "master_dark_00000000000000ff.fits");
    assert_eq!(
        master_output_path("/tmp/masters", MasterType::Flat, 1),
        "/tmp/masters/master_flat_0000000000000001.fits"
    );
    assert_eq!(MasterType::Bias.as_file_name_part(), "bias");
    assert_eq!(MasterType::Flat.as_image_type_value(), "master flat");
    assert_eq!(master_type_to_step_kind(MasterType::Dark), CalibrationStepKind::Dark);
    assert_eq!(kind_label(&CalibrationStepKind::Light), "Calibrating light frames");
    assert_eq!(kind_label(&CalibrationStepKind::Bias), "Stacking bias frames");
}

#[test]
fn sessions_are_labelled_by_their_fingerprint() {
    let s = plan_session("s", vec![], darks(), MasterOrFrames::Frames(vec![]));
    assert_eq!(session_label(&s), "2026-03-09 - l - 60.00s - gain 100.00 - -10.0C");
    let mut unnamed = s;
    unnamed.fingerprint.name = String::new();
    assert_eq!(session_label(&unnamed), "Unnamed session");
}

#[test]
fn the_pipeline_stacks_each_master_once_then_calibrates_lights() {
    let mut calibrated = plan_frame("/l/2.fits", FileType::Light, "l2");
    calibrated.calibrated_frame = Some("/l/2_cal.fits".to_string());
    let sessions = vec![
        plan_session(
            "s0",
            vec![plan_frame("/l/1.fits", FileType::Light, "l1"), calibrated],
            darks(),
            MasterOrFrames::Master(plan_frame("/m/flat.fits", FileType::MasterFlat, "mf")),
        ),
        plan_session("s1", vec![plan_frame("/l/3.fits", FileType::Light, "l3")], darks(), MasterOrFrames::Frames(vec![])),
        plan_session("s2", vec![], MasterOrFrames::Frames(vec![]), MasterOrFrames::Frames(vec![
            plan_frame("/f/1.fits", FileType::Flat, "f1"),
        ])),
    ];
    let (items, progress) = build_calibration_pipeline(&sessions, 42);
    assert_eq!(
        items,
        vec![
            CalibrationWorkItem { session_index: 0, task: CalibrationWorkItemTask::Master(MasterType::Dark) },
            CalibrationWorkItem { session_index: 2, task: CalibrationWorkItemTask::Master(MasterType::Flat) },
            CalibrationWorkItem { session_index: 0, task: CalibrationWorkItemTask::CalibrateLights },
            CalibrationWorkItem { session_index: 1, task: CalibrationWorkItemTask::CalibrateLights },
        ]
    );
    assert_eq!(progress.started_at, 42);
    assert_eq!(progress.finished_at, None);
    assert_eq!(progress.status, CalibrationRunStatus::Running);
    let ids: Vec<&str> = progress.steps.iter().map(|s| s.id.as_str()).collect();
    assert_eq!(ids, vec!["s0:Dark", "s2:Flat", "s0:Light", "s1:Light"]);
    assert_eq!(progress.steps[0].count, 2);
    assert_eq!(progress.steps[0].label, "Stacking dark frames");
    assert_eq!(progress.steps[2].count, 2);
    assert_eq!(progress.steps[2].skipped_count, 1);
    assert_eq!(progress.steps[3].skipped_count, 0);
    assert_eq!(progress.steps[2].session_label, "2026-03-09 - l - 60.00s - gain 100.00 - -10.0C");
    assert!(progress.steps.iter().all(|s| s.status == CalibrationStepStatus::Pending));
}

#[test]
fn a_run_with_nothing_to_do_is_finished_at_once() {
    let sessions = vec![plan_session("s", vec![], MasterOrFrames::Frames(vec![]), MasterOrFrames::Frames(vec![]))];
    let (items, progress) = build_calibration_pipeline(&sessions, 7);
    assert!(items.is_empty());
    assert_eq!(progress.finished_at, Some(7));
    assert_eq!(progress.status, CalibrationRunStatus::Completed);
}

#[test]
fn steps_run_and_end_with_their_outcome() {
    let sessions = vec![plan_session("s0", vec![plan_frame("/l/1.fits", FileType::Light, "l1")], darks(), MasterOrFrames::Frames(vec![]))];
    let (_, mut progress) = build_calibration_pipeline(&sessions, 1);
    assert_eq!(begin_step(&mut progress, 0, 5), Ok(()));
    assert_eq!(progress.current_step_id.as_deref(), Some("s0:Dark"));
    assert_eq!(progress.steps[0].status, CalibrationStepStatus::Running);
    assert_eq!(progress.steps[0].started_at, Some(5));
    set_step_counts(&mut progress, 0, 2, 0);
    assert_eq!(finish_step(&mut progress, 0, Ok(()), 9), Ok(()));
    assert_eq!(progress.steps[0].status, CalibrationStepStatus::Completed);
    assert_eq!(progress.steps[0].ended_at, Some(9));
    assert_eq!(progress.steps[0].completed_count, 2);
    assert_eq!(progress.current_step_id, None);

    assert_eq!(begin_step(&mut progress, 1, 10), Ok(()));
    set_step_counts(&mut progress, 1, 0, 1);
    assert_eq!(finish_step(&mut progress, 1, Ok(()), 11), Ok(()));
    assert_eq!(progress.steps[1].status, CalibrationStepStatus::Skipped);
    complete_run(&mut progress, 12);
    assert_eq!(progress.status, CalibrationRunStatus::Completed);
    assert_eq!(progress.finished_at, Some(12));

    assert_eq!(
        begin_step(&mut progress, 5, 13),
        Err("Calibration step index out of bounds".to_string())
    );
}

#[test]
fn a_failed_or_cancelled_step_ends_the_run() {
    let sessions = vec![plan_session("s0", vec![plan_frame("/l/1.fits", FileType::Light, "l1")], darks(), MasterOrFrames::Frames(vec![]))];
    let (_, mut progress) = build_calibration_pipeline(&sessions, 1);
    begin_step(&mut progress, 0, 2).unwrap();
    let r = finish_step(&mut progress, 0, Err("disk full".to_string()), 3);
    assert_eq!(r, Err("disk full".to_string()));
    assert_eq!(progress.steps[0].status, CalibrationStepStatus::Failed);
    assert_eq!(progress.steps[0].error.as_deref(), Some("disk full"));
    assert_eq!(progress.status, CalibrationRunStatus::Failed);
    assert_eq!(progress.finished_at, Some(3));

    let (_, mut progress) = build_calibration_pipeline(&sessions, 1);
    begin_step(&mut progress, 1, 2).unwrap();
    let r = finish_step(&mut progress, 1, Err("Calibration canceled".to_string()), 4);
    assert_eq!(r, Err("Calibration canceled".to_string()));
    assert_eq!(progress.steps[1].status, CalibrationStepStatus::Cancelled);
    assert_eq!(progress.steps[1].error, None);
    assert_eq!(progress.status, CalibrationRunStatus::Cancelled);
}

#[test]
fn cancellation_is_read_from_the_flag() {
    assert_eq!(cancellation_result(false), Ok(()));
    assert_eq!(cancellation_result(true), Err("Calibration canceled".to_string()));
    let c = CalibrationCancellation { requested: AtomicBool::new(false) };
    assert_eq!(check_cancelled(&c), Ok(()));
    c.requested.store(true, Ordering::Relaxed);
    assert_eq!(check_cancelled(&c), Err("Calibration canceled".to_string()));
}

#[test]
fn calibrated_frames_go_beside_the_original_or_into_the_temp_folder() {
    assert_eq!(
        calibrated_target_path("/data/m31.fits", "0123456789abcdef", CalibrationStorageMode::NextToOriginal, "/tmp"),
        "/data/m31_cal.fits"
    );
    assert_eq!(
        calibrated_target_path("/data/m31.fits", "0123456789abcdef", CalibrationStorageMode::TempFolder, "/tmp"),
        "/tmp/m31_01234567_cal.fits"
    );
    assert_eq!(
        calibrated_target_path("/data/m31.fits", "abc", CalibrationStorageMode::TempFolder, "/tmp"),
        "/tmp/m31_abc_cal.fits"
    );
    assert_eq!(
        calibrated_target_path("/", "abc", CalibrationStorageMode::TempFolder, "/tmp"),
        "/tmp/light_abc_cal.fits"
    );
}

#[test]
fn the_pipeline_threads_follow_the_machine() {
    assert_eq!(pipeline_thread_counts(8), (1, 6, 1, 12));
    assert_eq!(pipeline_thread_counts(12), (1, 10, 1, 20));
    assert_eq!(pipeline_thread_counts(16), (2, 12, 2, 24));
    assert_eq!(pipeline_thread_counts(2), (1, 1, 1, 4));
    assert_eq!(pipeline_thread_counts(1), (1, 1, 1, 4));
}
