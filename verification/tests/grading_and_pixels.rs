use astro_grader::files::File;
use astro_grader::fits::{BayerPattern, FileType, FitsWriteError, FrameState, ImageDataLayout};
use astro_grader::grading::{
    copy_metrics_back_to_raw_nights, count_rejected, find_verdict, image_path_for_metrics,
    metrics_progress, set_step_results, settle_rejected_counts, FrameVerdict,
};
use astro_grader::pixels::{
    bayer_cells, bayer_channel, debayered_size, fits_shape, image_geometry, interleave_planes,
    is_bayer_pattern_accepted, resolve_bayer_pattern, shape_to_whd, strided_sample,
};
use astro_grader::progress::{CalibrationRunStatus, CalibrationStepKind, CalibrationStepStatus};
use astro_grader::session::{AstroSession, FeState, MasterOrFrames, RawNight, SessionFingerprint};

fn graded_frame(path: &str, state: FrameState) -> File {
    let mut f = File::new(path.to_string(), path.to_string(), FileType::Light, path.to_string());
    f.state = state;
    f
}

fn graded_session(uuid: &str, lights: Vec<File>) -> AstroSession {
    AstroSession {
        uuid: uuid.to_string(),
        fingerprint: SessionFingerprint {
            name: "2026-03-09".to_string(),
            camera: "cam".to_string(),
            filter: "Ha".to_string(),
            exposure: 300_000,
            gain: 0,
            temperature: 0,
        },
        lights,
        darks: MasterOrFrames::Frames(vec![]),
        flats: MasterOrFrames::Frames(vec![]),
        biases: MasterOrFrames::Frames(vec![]),
        master_dark: None,
        master_flat: None,
        master_bias: None,
    }
}

#[test]
fn a_grading_run_has_one_step_per_session() {
    let sessions = vec![
        graded_session("s1", vec![graded_frame("/a", FrameState::Default), graded_frame("/b", FrameState::Default)]),
        graded_session("s2", vec![]),
    ];
    let p = metrics_progress(&sessions, 77);
    assert_eq!(p.started_at, 77);
    assert_eq!(p.status, CalibrationRunStatus::Running);
    assert_eq!(p.steps.len(), 2);
    assert_eq!(p.steps[0].id, "s1:Metrics");
    assert_eq!(p.steps[0].label, "Metrics");
    assert_eq!(p.steps[0].session_label, "2026-03-09 - Ha");
    assert_eq!(p.steps[0].kind, CalibrationStepKind::Light);
    assert_eq!(p.steps[0].count, 2);
    assert_eq!(p.steps[1].count, 0);
    assert_eq!(p.steps[1].status, CalibrationStepStatus::Pending);
    let empty = metrics_progress(&vec![], 5);
    assert_eq!(empty.status, CalibrationRunStatus::Completed);
    assert!(empty.steps.is_empty());
}

#[test]
fn rejections_are_counted_into_the_steps() {
    let sessions = vec![
        graded_session("s1", vec![graded_frame("/a", FrameState::Rejected), graded_frame("/b", FrameState::Accepted)]),
        graded_session("s2", vec![graded_frame("/c", FrameState::Rejected)]),
    ];
    assert_eq!(count_rejected(&sessions[0].lights), 1);
    let mut p = metrics_progress(&sessions, 0);
    set_step_results(&mut p, 0, 9, 9);
    assert_eq!(p.steps[0].completed_count, 9);
    settle_rejected_counts(&mut p, &sessions);
    assert_eq!((p.steps[0].completed_count, p.steps[0].rejected_count), (2, 1));
    assert_eq!((p.steps[1].completed_count, p.steps[1].rejected_count), (1, 1));
}

#[test]
fn verdicts_reach_the_nights_by_graded_path() {
    let mut calibrated = graded_frame("C:\\data\\b.fits", FrameState::Calibrated);
    calibrated.calibrated_frame = Some("C:\\cal\\b_cal.fits\\".to_string());
    assert_eq!(image_path_for_metrics(&calibrated), "C:\\cal\\b_cal.fits\\");
    assert_eq!(image_path_for_metrics(&graded_frame("/a", FrameState::Default)), "/a");
    let mut state = FeState {
        raw_nights: vec![RawNight {
            name: "n".to_string(),
            files: vec![graded_frame("/a", FrameState::Default), calibrated, graded_frame("/z", FrameState::Default)],
        }],
        grouped_nights: vec![],
        active_grouped_session_uuid: None,
        current_preview_file: None,
    };
    let verdicts = vec![
        FrameVerdict { key: "/a".to_string(), state: FrameState::Accepted },
        FrameVerdict { key: "C:/cal/b_cal.fits".to_string(), state: FrameState::Accepted },
        FrameVerdict { key: "/a".to_string(), state: FrameState::Rejected },
    ];
    assert_eq!(find_verdict(&verdicts, "/a"), Some(FrameState::Rejected));
    assert_eq!(find_verdict(&verdicts, "/z"), None);
    copy_metrics_back_to_raw_nights(&mut state, &verdicts);
    let states: Vec<FrameState> = state.raw_nights[0].files.iter().map(|f| f.state).collect();
    assert_eq!(states, vec![FrameState::Rejected, FrameState::Accepted, FrameState::Default]);
}

#[test]
fn fits_shapes_give_width_height_depth() {
    assert_eq!(shape_to_whd(&vec![2160, 3840]), (3840, 2160, 1));
    assert_eq!(shape_to_whd(&vec![3, 2116, 3804]), (3804, 2116, 3));
    assert_eq!(shape_to_whd(&vec![5]), (0, 0, 0));
    let planar = image_geometry(&vec![3, 2116, 3804]);
    assert_eq!((planar.width, planar.height, planar.depth), (3804, 2116, 3));
    assert_eq!(planar.layout, ImageDataLayout::RGBPlanar);
    let grey = image_geometry(&vec![2160, 3840]);
    assert_eq!((grey.width, grey.height, grey.depth), (3840, 2160, 1));
    assert_eq!(grey.layout, ImageDataLayout::Grayscale);
    let odd = image_geometry(&vec![4, 10, 20]);
    assert_eq!((odd.width, odd.height, odd.depth), (10, 4, 1));
    assert_eq!(fits_shape(ImageDataLayout::Grayscale, 20, 10), Ok(vec![10, 20]));
    assert_eq!(fits_shape(ImageDataLayout::RGBPlanar, 20, 10), Ok(vec![3, 10, 20]));
    assert_eq!(fits_shape(ImageDataLayout::RGB, 20, 10), Err(FitsWriteError::WriteImageFailed));
}

#[test]
fn planes_interleave_into_triples() {
    let planar = vec![1, 2, 10, 20, 100, 200];
    assert_eq!(interleave_planes(&planar, 2, 0), vec![1, 10, 100, 2, 20, 200]);
    let with_tail = vec![1, 2, 10, 20, 100, 200, 7];
    assert_eq!(interleave_planes(&with_tail, 2, 0), vec![1, 10, 100, 2, 20, 200, 0]);
    let floats = vec![0.5f32, 0.25, 0.125];
    assert_eq!(interleave_planes(&floats, 1, 0.0), vec![0.5, 0.25, 0.125]);
}

#[test]
fn samples_take_every_stride_th_value() {
    let data: Vec<u32> = (0..10).collect();
    assert_eq!(strided_sample(&data, 0, 3), vec![0, 3, 6, 9]);
    assert_eq!(strided_sample(&data, 1, 3), vec![1, 4, 7]);
    assert_eq!(strided_sample(&data, 9, 100), vec![9]);
    assert_eq!(strided_sample(&data, 10, 1), Vec::<u32>::new());
    assert_eq!(strided_sample(&data, usize::MAX, 1), Vec::<u32>::new());
}

#[test]
fn bayer_patterns_are_checked_and_read() {
    assert!(is_bayer_pattern_accepted("RGGB"));
    assert!(is_bayer_pattern_accepted("bggr"));
    assert!(!is_bayer_pattern_accepted("RGB"));
    assert!(!is_bayer_pattern_accepted("RGGG"));
    assert!(!is_bayer_pattern_accepted("RGGBX"));
    assert!(!is_bayer_pattern_accepted("RGé"));
    assert_eq!(bayer_cells("RGGB"), vec!['R', 'G', 'G', 'B']);
    assert_eq!(bayer_cells("RG"), vec!['R', 'G', ' ', ' ']);
    let cells = bayer_cells("RGGB");
    assert_eq!(bayer_channel(&cells, 0, 0, 0, 0), Some(0));
    assert_eq!(bayer_channel(&cells, 1, 0, 0, 0), Some(1));
    assert_eq!(bayer_channel(&cells, 0, 1, 0, 0), Some(1));
    assert_eq!(bayer_channel(&cells, 1, 1, 0, 0), Some(2));
    assert_eq!(bayer_channel(&cells, 0, 0, 1, 0), Some(1));
    assert_eq!(bayer_channel(&cells, 0, 0, 1, 1), Some(2));
    assert_eq!(bayer_channel(&cells, 5, 7, usize::MAX, 0), Some(1));
    let lower = bayer_cells("rggb");
    assert_eq!(bayer_channel(&lower, 0, 0, 0, 0), None);
    assert_eq!(debayered_size(7, 5), (3, 2));
}

#[test]
fn the_debayer_pattern_comes_from_the_request_or_the_frame() {
    let original = Some(BayerPattern { pattern: "RGGB".to_string(), x_offset: 1, y_offset: 0 });
    let r = resolve_bayer_pattern(&original, None).unwrap();
    assert_eq!((r.pattern.as_str(), r.x_offset, r.y_offset), ("RGGB", 1, 0));
    let r = resolve_bayer_pattern(&original, Some("BGGR".to_string())).unwrap();
    assert_eq!((r.pattern.as_str(), r.x_offset, r.y_offset), ("BGGR", 1, 0));
    let r = resolve_bayer_pattern(&None, Some("GRBG".to_string())).unwrap();
    assert_eq!((r.pattern.as_str(), r.x_offset, r.y_offset), ("GRBG", 0, 0));
    assert!(resolve_bayer_pattern(&None, None).is_none());
}
