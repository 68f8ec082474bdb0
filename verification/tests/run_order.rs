use astro_grader::calibration::build_calibration_pipeline;
use astro_grader::calibration_run::{begin_run_step, end_run_step, RunNext};
use astro_grader::files::File;
use astro_grader::fits::FileType;
use astro_grader::progress::{CalibrationProgressMessage, CalibrationRunStatus, CalibrationStepStatus};
use astro_grader::session::{AstroSession, MasterOrFrames, SessionFingerprint};
use astro_grader::text::trim_text;

fn run_frame(path: &str, file_type: FileType, uuid: &str) -> File {
    File::new(path.to_string(), path.to_string(), file_type, uuid.to_string())
}

fn two_step_progress() -> CalibrationProgressMessage {
    let session = AstroSession {
        uuid: "s0".to_string(),
        fingerprint: SessionFingerprint {
            name: "n".to_string(),
            camera: "cam".to_string(),
            filter: "l".to_string(),
            exposure: 60_000,
            gain: 100_000,
            temperature: -10_000,
        },
        lights: vec![run_frame("/l/1.fits", FileType::Light, "l1")],
        darks: MasterOrFrames::Frames(vec![run_frame("/d/1.fits", FileType::Dark, "d1")]),
        flats: MasterOrFrames::Frames(vec![]),
        biases: MasterOrFrames::Frames(vec![]),
        master_dark: None,
        master_flat: None,
        master_bias: None,
    };
    let (items, progress) = build_calibration_pipeline(&vec![session], 1);
    assert_eq!(items.len(), 2);
    progress
}

#[test]
fn a_run_goes_step_by_step_and_completes_after_the_last() {
    let mut p = two_step_progress();
    assert_eq!(begin_run_step(&mut p, 0, false, 2), Ok(()));
    assert_eq!(p.steps[0].status, CalibrationStepStatus::Running);
    assert!(matches!(end_run_step(&mut p, 0, 2, Ok(()), 3), RunNext::Step(1)));
    assert_eq!(p.status, CalibrationRunStatus::Running);
    assert_eq!(p.finished_at, None);
    assert_eq!(begin_run_step(&mut p, 1, false, 4), Ok(()));
    assert!(matches!(end_run_step(&mut p, 1, 2, Ok(()), 5), RunNext::Finished));
    assert_eq!(p.status, CalibrationRunStatus::Completed);
    assert_eq!(p.finished_at, Some(5));
    assert_eq!(p.steps[1].status, CalibrationStepStatus::Completed);
}

#[test]
fn a_cancel_before_a_step_leaves_it_untouched() {
    let mut p = two_step_progress();
    assert_eq!(begin_run_step(&mut p, 0, true, 2), Err("Calibration canceled".to_string()));
    assert_eq!(p.steps[0].status, CalibrationStepStatus::Pending);
    assert_eq!(p.steps[0].started_at, None);
    assert_eq!(p.current_step_id, None);
}

#[test]
fn a_failed_step_stops_the_run_before_the_next() {
    let mut p = two_step_progress();
    begin_run_step(&mut p, 0, false, 2).unwrap();
    match end_run_step(&mut p, 0, 2, Err("disk full".to_string()), 3) {
        RunNext::Stopped(e) => assert_eq!(e, "disk full"),
        other => panic!("unexpected {:?}", other),
    }
    assert_eq!(p.status, CalibrationRunStatus::Failed);
    assert_eq!(p.steps[0].status, CalibrationStepStatus::Failed);
    assert_eq!(p.steps[1].status, CalibrationStepStatus::Pending);

    let mut p = two_step_progress();
    begin_run_step(&mut p, 0, false, 2).unwrap();
    match end_run_step(&mut p, 0, 2, Err("Calibration canceled".to_string()), 3) {
        RunNext::Stopped(e) => assert_eq!(e, "Calibration canceled"),
        other => panic!("unexpected {:?}", other),
    }
    assert_eq!(p.status, CalibrationRunStatus::Cancelled);
    assert_eq!(p.steps[0].status, CalibrationStepStatus::Cancelled);

    let mut p = two_step_progress();
    match end_run_step(&mut p, 7, 2, Ok(()), 3) {
        RunNext::Stopped(e) => assert_eq!(e, "Calibration step index out of bounds"),
        other => panic!("unexpected {:?}", other),
    }
}

#[test]
fn trimming_drops_unicode_white_space_at_both_ends() {
    assert_eq!(trim_text("  \t ZWO ASI \n"), "ZWO ASI");
    assert_eq!(trim_text("\u{3000}Hα\u{00A0}"), "Hα");
    assert_eq!(trim_text("   "), "");
    assert_eq!(trim_text(""), "");
    assert_eq!(trim_text("a b"), "a b");
}
