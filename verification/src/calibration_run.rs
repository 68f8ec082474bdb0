//! The decisions of a calibration run: where calibrated frames and masters
//! go, how a step's outcome is reported, how a calibrated frame is recorded in
//! the state, and when the run is cancelled.
use vstd::prelude::*;
use vstd::pervasive::VecAdditionalExecFns;
use vstd::string::StringSliceAdditionalSpecFns;
use std::sync::atomic::AtomicBool;
use crate::calibration::{MasterType, master_file_name, master_file_name_text, frames_signature, frames_signature_of};
use crate::config::CalibrationStorageMode;
use crate::files::{File, FileView, copy_opt_text, file_views, opt_text};
use crate::fits::FrameState;
use crate::paths::{file_stem_of, joined_path, path_file_stem, path_join, path_with_file_name, with_file_name_of};
use crate::progress::{
    CalibrationProgressMessage, CalibrationProgressStep, CalibrationRunStatus, CalibrationStepKind,
    CalibrationStepStatus, ProgressView, StepView, blank_step, step_views,
};
use crate::session::{
    AstroSession, FeState, FeStateView, MasterOrFrames, NightView, RawNight, SessionFingerprint,
    SessionView, SlotView, night_views, session_views,
};
use crate::text::{append_text, text_equal, text_of};

verus! {

// ---------------------------------------------------------------------
// Cancellation
// ---------------------------------------------------------------------

/// The error text a cancelled run ends with.
pub open spec fn cancel_message() -> Seq<char> {
    "Calibration canceled"@
}

/// The flag the front end raises to cancel a running calibration.
#[derive(Debug)]
pub struct CalibrationCancellation {
    pub requested: AtomicBool,
}

/// The outcome of a cancellation check that found the flag `requested`.
pub fn cancellation_result(requested: bool) -> (r: Result<(), String>)
    ensures
        r is Err <==> requested,
        r matches Err(msg) ==> msg@ == cancel_message(),
{
    if requested {
        Err(text_of("Calibration canceled"))
    } else {
        Ok(())
    }
}

/// Fails with the cancellation error when cancellation was requested. The flag
/// is set by another thread, so what it reads is not known in advance.
pub fn check_cancelled(cancellation: &CalibrationCancellation) -> (r: Result<(), String>)
    ensures
        r matches Err(msg) ==> msg@ == cancel_message(),
{
    let requested = cancellation.requested.load(std::sync::atomic::Ordering::Relaxed);
    cancellation_result(requested)
}

// ---------------------------------------------------------------------
// Where outputs go
// ---------------------------------------------------------------------

/// The first eight bytes of an identity, as text (the whole identity when it is shorter).
pub open spec fn short_id(uuid: Seq<char>) -> Seq<char> {
    let bytes = vstd::utf8::encode_utf8(uuid);
    if bytes.len() <= 8 {
        uuid
    } else {
        vstd::utf8::decode_utf8(bytes.subrange(0, 8))
    }
}

/// Where the calibrated copy of the frame at `source` goes: beside it as
/// `<stem>_cal.fits`, or in the temporary folder as
/// `<stem>_<first 8 bytes of its identity>_cal.fits`; a path without a stem
/// uses the stem `light`.
pub open spec fn calibrated_target(
    source: Seq<char>,
    uuid: Seq<char>,
    storage: CalibrationStorageMode,
    temp_folder: Seq<char>,
) -> Seq<char> {
    let stem = match file_stem_of(source) {
        Some(s) => s,
        None => "light"@,
    };
    match storage {
        CalibrationStorageMode::NextToOriginal => with_file_name_of(source, stem + "_cal.fits"@),
        CalibrationStorageMode::TempFolder => joined_path(
            temp_folder,
            stem + "_"@ + short_id(uuid) + "_cal.fits"@,
        ),
    }
}

/// Where the calibrated copy of a light frame goes. An identity longer than
/// eight bytes must have a character boundary after its eighth byte.
pub fn calibrated_target_path(
    source_path: &str,
    uuid: &str,
    storage: CalibrationStorageMode,
    temp_folder: &str,
) -> (r: String)
    requires
        vstd::utf8::encode_utf8(uuid@).len() <= usize::MAX,
        vstd::utf8::encode_utf8(uuid@).len() <= 8 || vstd::utf8::is_char_boundary(
            vstd::utf8::encode_utf8(uuid@),
            8,
        ),
    ensures
        r@ == calibrated_target(source_path@, uuid@, storage, temp_folder@),
{
    let stem = match path_file_stem(source_path) {
        Some(s) => s,
        None => text_of("light"),
    };
    match storage {
        CalibrationStorageMode::NextToOriginal => {
            let mut name = stem;
            append_text(&mut name, "_cal.fits");
            path_with_file_name(source_path, name.as_str())
        },
        CalibrationStorageMode::TempFolder => {
            let short: &str = if uuid.len() <= 8 {
                uuid
            } else {
                let (head, _) = uuid.split_at(8);
                proof {
                    broadcast use vstd::utf8::encode_utf8_decode_utf8;
                    assert(head.spec_bytes() =~= uuid.spec_bytes().subrange(0, 8));
                    assert(vstd::utf8::decode_utf8(vstd::utf8::encode_utf8(head@)) == head@);
                }
                head
            };
            assert(short@ == short_id(uuid@));
            let mut name = stem;
            append_text(&mut name, "_");
            append_text(&mut name, short);
            append_text(&mut name, "_cal.fits");
            path_join(temp_folder, name.as_str())
        },
    }
}

/// Where the master of this type stacked from frames with this signature goes.
pub fn master_output_path(temp_folder: &str, master_type: MasterType, signature: u64) -> (r: String)
    ensures
        r@ == joined_path(temp_folder@, master_file_name_text(master_type, signature)),
{
    let name = master_file_name(master_type, signature);
    path_join(temp_folder, name.as_str())
}

// ---------------------------------------------------------------------
// Threads of the light-frame pipeline
// ---------------------------------------------------------------------

/// How the light-frame pipeline divides the machine's threads: loaders,
/// workers, writers, and the capacity of the queues between them.
pub open spec fn thread_plan(total_cpus: int) -> (int, int, int, int) {
    let side: int = if total_cpus <= 12 { 1 } else { 2 };
    let left = total_cpus - 2 * side;
    let workers: int = if left >= 1 { left } else { 1 };
    let cap: int = if 2 * workers >= 4 { 2 * workers } else { 4 };
    (side, workers, side, cap)
}

/// How the light-frame pipeline divides `total_cpus` threads.
pub fn pipeline_thread_counts(total_cpus: usize) -> (r: (usize, usize, usize, usize))
    requires
        total_cpus <= usize::MAX / 2,
    ensures
        (r.0 as int, r.1 as int, r.2 as int, r.3 as int) == thread_plan(total_cpus as int),
{
    let (loaders, writers): (usize, usize) = if total_cpus <= 12 {
        (1, 1)
    } else {
        (2, 2)
    };
    let left: usize = if total_cpus >= loaders + writers {
        total_cpus - (loaders + writers)
    } else {
        0
    };
    let workers: usize = if left >= 1 {
        left
    } else {
        1
    };
    let cap: usize = if workers * 2 >= 4 {
        workers * 2
    } else {
        4
    };
    (loaders, workers, writers, cap)
}

// ---------------------------------------------------------------------
// Reporting the steps of a run
// ---------------------------------------------------------------------

/// The error text for a step that does not exist.
pub open spec fn step_bounds_message() -> Seq<char> {
    "Calibration step index out of bounds"@
}

fn placeholder_step() -> (r: CalibrationProgressStep)
    ensures
        r@ == blank_step(),
{
    CalibrationProgressStep {
        id: String::new(),
        kind: CalibrationStepKind::Light,
        label: String::new(),
        session_uuid: String::new(),
        session_label: String::new(),
        count: 0,
        completed_count: 0,
        skipped_count: 0,
        rejected_count: 0,
        status: CalibrationStepStatus::Pending,
        started_at: None,
        ended_at: None,
        error: None,
    }
}

/// A step once it started at `now`.
pub open spec fn started_step(s: StepView, now: u64) -> StepView {
    StepView { status: CalibrationStepStatus::Running, started_at: Some(now), ended_at: None, error: None, ..s }
}

/// Marks step `step_index` running from `now` and makes it the current step of a
/// running run; a step that does not exist is an error and changes nothing.
pub fn begin_step(progress: &mut CalibrationProgressMessage, step_index: usize, now: u64) -> (r: Result<(), String>)
    ensures
        r is Ok <==> step_index < old(progress)@.steps.len(),
        r matches Err(msg) ==> msg@ == step_bounds_message() && final(progress)@ == old(progress)@,
        r is Ok ==> final(progress)@ == (ProgressView {
            status: CalibrationRunStatus::Running,
            current_step_id: Some(old(progress)@.steps[step_index as int].id),
            steps: old(progress)@.steps.update(
                step_index as int,
                started_step(old(progress)@.steps[step_index as int], now),
            ),
            ..old(progress)@
        }),
{
    if step_index >= progress.steps.len() {
        return Err(text_of("Calibration step index out of bounds"));
    }
    let ghost before = step_views(progress.steps@);
    let mut step = placeholder_step();
    progress.steps.set_and_swap(step_index, &mut step);
    step.status = CalibrationStepStatus::Running;
    step.started_at = Some(now);
    step.ended_at = None;
    step.error = None;
    progress.current_step_id = Some(step.id.clone());
    progress.steps.set_and_swap(step_index, &mut step);
    progress.status = CalibrationRunStatus::Running;
    assert(step_views(progress.steps@) =~= before.update(
        step_index as int,
        started_step(before[step_index as int], now),
    ));
    Ok(())
}

/// A step once it ended at `now` with the outcome `result`: a success is
/// Skipped when nothing was processed but something was skipped, Completed
/// otherwise; the cancellation error marks it Cancelled; any other error marks
/// it Failed and is kept on the step.
pub open spec fn ended_step(s: StepView, result: Result<(), Seq<char>>, now: u64) -> StepView {
    match result {
        Ok(()) => StepView {
            status: if s.completed_count == 0 && s.skipped_count > 0 {
                CalibrationStepStatus::Skipped
            } else {
                CalibrationStepStatus::Completed
            },
            ended_at: Some(now),
            ..s
        },
        Err(e) => if e == cancel_message() {
            StepView { status: CalibrationStepStatus::Cancelled, ended_at: Some(now), ..s }
        } else {
            StepView { status: CalibrationStepStatus::Failed, ended_at: Some(now), error: Some(e), ..s }
        },
    }
}

/// The run after step `i` ended at `now` with `result`: no step is current any
/// more, and an error ends the whole run, Cancelled or Failed.
pub open spec fn ended_run(p: ProgressView, i: int, result: Result<(), Seq<char>>, now: u64) -> ProgressView {
    let steps = p.steps.update(i, ended_step(p.steps[i], result, now));
    match result {
        Ok(()) => ProgressView { current_step_id: None, steps, ..p },
        Err(e) => ProgressView {
            current_step_id: None,
            steps,
            finished_at: Some(now),
            status: if e == cancel_message() {
                CalibrationRunStatus::Cancelled
            } else {
                CalibrationRunStatus::Failed
            },
            ..p
        },
    }
}

/// The characters of an outcome's error.
pub open spec fn outcome_view(r: Result<(), String>) -> Result<(), Seq<char>> {
    match r {
        Ok(()) => Ok(()),
        Err(e) => Err(e@),
    }
}

/// Records how step `step_index` ended and hands the outcome back, so that an
/// error ends the run; a step that does not exist is an error and changes nothing.
pub fn finish_step(
    progress: &mut CalibrationProgressMessage,
    step_index: usize,
    result: Result<(), String>,
    now: u64,
) -> (r: Result<(), String>)
    ensures
        step_index >= old(progress)@.steps.len() ==> (final(progress)@ == old(progress)@ && (r matches Err(
            msg,
        ) && msg@ == step_bounds_message())),
        step_index < old(progress)@.steps.len() ==> final(progress)@ == ended_run(
            old(progress)@,
            step_index as int,
            outcome_view(result),
            now,
        ) && outcome_view(r) == outcome_view(result),
{
    if step_index >= progress.steps.len() {
        return Err(text_of("Calibration step index out of bounds"));
    }
    let ghost before = progress@;
    let mut step = placeholder_step();
    progress.steps.set_and_swap(step_index, &mut step);
    let r = match result {
        Ok(()) => {
            step.status = if step.completed_count == 0 && step.skipped_count > 0 {
                CalibrationStepStatus::Skipped
            } else {
                CalibrationStepStatus::Completed
            };
            step.ended_at = Some(now);
            Ok(())
        },
        Err(error) => {
            step.ended_at = Some(now);
            progress.finished_at = Some(now);
            if text_equal(error.as_str(), "Calibration canceled") {
                step.status = CalibrationStepStatus::Cancelled;
                progress.status = CalibrationRunStatus::Cancelled;
            } else {
                step.status = CalibrationStepStatus::Failed;
                step.error = Some(error.clone());
                progress.status = CalibrationRunStatus::Failed;
            }
            Err(error)
        },
    };
    progress.steps.set_and_swap(step_index, &mut step);
    progress.current_step_id = None;
    assert(step_views(progress.steps@) =~= before.steps.update(
        step_index as int,
        ended_step(before.steps[step_index as int], outcome_view(result), now),
    ));
    r
}

/// Marks the run completed at `now`.
pub fn complete_run(progress: &mut CalibrationProgressMessage, now: u64)
    ensures
        final(progress)@ == (ProgressView {
            finished_at: Some(now),
            status: CalibrationRunStatus::Completed,
            ..old(progress)@
        }),
{
    progress.finished_at = Some(now);
    progress.status = CalibrationRunStatus::Completed;
}

// ---------------------------------------------------------------------
// The order of a run
// ---------------------------------------------------------------------

/// Starts step `step_index` of a run, given whether cancellation was
/// requested before it: a cancelled run stops here with the cancellation
/// error and no step is touched; otherwise the step begins as `begin_step`
/// begins it.
pub fn begin_run_step(
    progress: &mut CalibrationProgressMessage,
    step_index: usize,
    cancel_requested: bool,
    now: u64,
) -> (r: Result<(), String>)
    ensures
        cancel_requested ==> final(progress)@ == old(progress)@ && (r matches Err(msg) && msg@
            == cancel_message()),
        !cancel_requested ==> (r is Ok <==> step_index < old(progress)@.steps.len()),
        !cancel_requested && step_index >= old(progress)@.steps.len() ==> final(progress)@ == old(
            progress,
        )@ && (r matches Err(msg) && msg@ == step_bounds_message()),
        !cancel_requested && step_index < old(progress)@.steps.len() ==> final(progress)@ == (ProgressView {
            status: CalibrationRunStatus::Running,
            current_step_id: Some(old(progress)@.steps[step_index as int].id),
            steps: old(progress)@.steps.update(
                step_index as int,
                started_step(old(progress)@.steps[step_index as int], now),
            ),
            ..old(progress)@
        }),
{
    cancellation_result(cancel_requested)?;
    begin_step(progress, step_index, now)
}

/// What a run does after a step ended.
#[derive(Debug)]
pub enum RunNext {
    /// Go on with the step of this index.
    Step(usize),
    /// The last step ended well: the run is completed.
    Finished,
    /// The run stops with this error.
    Stopped(String),
}

/// Ends step `step_index` of a run of `step_count` steps with `result` at
/// `now` and says what comes next: an error, the step's own or a step that
/// does not exist, stops the run; a success goes on with the next step, and
/// after the last step completes the run.
pub fn end_run_step(
    progress: &mut CalibrationProgressMessage,
    step_index: usize,
    step_count: usize,
    result: Result<(), String>,
    now: u64,
) -> (r: RunNext)
    ensures
        step_index >= old(progress)@.steps.len() ==> final(progress)@ == old(progress)@ && (r matches RunNext::Stopped(
            msg,
        ) && msg@ == step_bounds_message()),
        step_index < old(progress)@.steps.len() ==> (result matches Err(e) ==> final(progress)@
            == ended_run(old(progress)@, step_index as int, Err(e@), now) && (r matches RunNext::Stopped(
            msg,
        ) && msg@ == e@)),
        step_index < old(progress)@.steps.len() && result is Ok && step_index + 1 < step_count
            ==> final(progress)@ == ended_run(old(progress)@, step_index as int, Ok(()), now) && r
            == RunNext::Step((step_index + 1) as usize),
        step_index < old(progress)@.steps.len() && result is Ok && step_index + 1 >= step_count
            ==> final(progress)@ == (ProgressView {
            finished_at: Some(now),
            status: CalibrationRunStatus::Completed,
            ..ended_run(old(progress)@, step_index as int, Ok(()), now)
        }) && r == RunNext::Finished,
{
    match finish_step(progress, step_index, result, now) {
        Err(e) => RunNext::Stopped(e),
        Ok(()) => {
            if step_count > 0 && step_index < step_count - 1 {
                RunNext::Step(step_index + 1)
            } else {
                complete_run(progress, now);
                RunNext::Finished
            }
        },
    }
}

/// Sets the processed and skipped counts of step `step_index`, if it exists.
pub fn set_step_counts(progress: &mut CalibrationProgressMessage, step_index: usize, completed: usize, skipped: usize)
    ensures
        step_index < old(progress)@.steps.len() ==> final(progress)@ == (ProgressView {
            steps: old(progress)@.steps.update(
                step_index as int,
                StepView {
                    completed_count: completed,
                    skipped_count: skipped,
                    ..old(progress)@.steps[step_index as int]
                },
            ),
            ..old(progress)@
        }),
        step_index >= old(progress)@.steps.len() ==> final(progress)@ == old(progress)@,
{
    if step_index >= progress.steps.len() {
        return;
    }
    let ghost before = step_views(progress.steps@);
    let mut step = placeholder_step();
    progress.steps.set_and_swap(step_index, &mut step);
    step.completed_count = completed;
    step.skipped_count = skipped;
    progress.steps.set_and_swap(step_index, &mut step);
    assert(step_views(progress.steps@) =~= before.update(
        step_index as int,
        StepView {
            completed_count: completed,
            skipped_count: skipped,
            ..before[step_index as int]
        },
    ));
}

} // verus!
