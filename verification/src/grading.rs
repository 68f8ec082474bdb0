//! The bookkeeping of a grading run: one progress step per session, the
//! counts of rejected frames, and copying the verdicts back to the nights.
use vstd::prelude::*;
use vstd::pervasive::VecAdditionalExecFns;
use crate::files::{File, FileView, blank_file, file_views};
use crate::fits::{FileType, FrameState};
use crate::paths::{normalize_path, normalized_path};
use crate::progress::{
    CalibrationProgressMessage, CalibrationProgressStep, CalibrationRunStatus, CalibrationStepKind,
    CalibrationStepStatus, ProgressView, StepView, blank_step, step_views,
};
use crate::session::{
    AstroSession, FeState, FeStateView, NightView, RawNight, SessionView, blank_night,
    lemma_same_names_stay_distinct, night_names_distinct, night_views, same_night_names, session_views,
};
use crate::text::{append_text, text_equal, text_of};

verus! {

// ---------------------------------------------------------------------
// The steps of a grading run
// ---------------------------------------------------------------------

/// The path whose pixels are graded: the calibrated copy when there is one.
pub open spec fn graded_path(f: FileView) -> Seq<char> {
    match f.calibrated_frame {
        Some(c) => c,
        None => f.path,
    }
}

/// The path whose pixels are graded: the calibrated copy when there is one.
pub fn image_path_for_metrics(file: &File) -> (r: String)
    ensures
        r@ == graded_path(file@),
{
    match &file.calibrated_frame {
        Some(c) => c.clone(),
        None => file.path.clone(),
    }
}

/// The grading step of a session: `uuid:Metrics`, labelled `Metrics`, under
/// `name - filter`, over all its light frames.
pub open spec fn metrics_step(s: SessionView) -> StepView {
    StepView {
        id: s.uuid + ":Metrics"@,
        kind: CalibrationStepKind::Light,
        label: "Metrics"@,
        session_uuid: s.uuid,
        session_label: s.fingerprint.name + " - "@ + s.fingerprint.filter,
        count: s.lights.len() as usize,
        completed_count: 0,
        skipped_count: 0,
        rejected_count: 0,
        status: CalibrationStepStatus::Pending,
        started_at: None,
        ended_at: None,
        error: None,
    }
}

/// One grading step per session, in order.
pub open spec fn metrics_steps_of(ss: Seq<SessionView>) -> Seq<StepView> {
    ss.map_values(|s: SessionView| metrics_step(s))
}

/// A grading run that has just started: completed at once when there is no
/// session, running otherwise.
pub open spec fn metrics_progress_of(ss: Seq<SessionView>, started_at: u64) -> ProgressView {
    ProgressView {
        started_at: started_at,
        finished_at: None,
        status: if ss.len() == 0 {
            CalibrationRunStatus::Completed
        } else {
            CalibrationRunStatus::Running
        },
        current_step_id: None,
        steps: metrics_steps_of(ss),
    }
}

fn metrics_step_for(session: &AstroSession) -> (r: CalibrationProgressStep)
    ensures
        r@ == metrics_step(session@),
{
    let mut id = session.uuid.clone();
    append_text(&mut id, ":Metrics");
    let mut session_label = session.fingerprint.name.clone();
    append_text(&mut session_label, " - ");
    append_text(&mut session_label, session.fingerprint.filter.as_str());
    CalibrationProgressStep {
        id,
        kind: CalibrationStepKind::Light,
        label: text_of("Metrics"),
        session_uuid: session.uuid.clone(),
        session_label,
        count: session.lights.len(),
        completed_count: 0,
        skipped_count: 0,
        rejected_count: 0,
        status: CalibrationStepStatus::Pending,
        started_at: None,
        ended_at: None,
        error: None,
    }
}

/// The progress of a grading run started at `started_at`.
pub fn metrics_progress(sessions: &Vec<AstroSession>, started_at: u64) -> (r: CalibrationProgressMessage)
    ensures
        r@ == metrics_progress_of(session_views(sessions@), started_at),
{
    let ghost ss = session_views(sessions@);
    let mut steps: Vec<CalibrationProgressStep> = Vec::new();
    let mut k: usize = 0;
    while k < sessions.len()
        invariant
            k <= sessions.len(),
            ss == session_views(sessions@),
            steps@.len() == k,
            forall|j: int| 0 <= j < k ==> #[trigger] step_views(steps@)[j] == metrics_step(ss[j]),
        decreases sessions.len() - k,
    {
        let ghost before = steps@;
        let step = metrics_step_for(&sessions[k]);
        assert(step@ == metrics_step(ss[k as int]));
        steps.push(step);
        assert forall|j: int| 0 <= j < k + 1 implies #[trigger] step_views(steps@)[j] == metrics_step(ss[j]) by {
            if j < k {
                assert(steps@[j] == before[j]);
                assert(step_views(before)[j] == metrics_step(ss[j]));
            }
        }
        k = k + 1;
    }
    assert(step_views(steps@) =~= metrics_steps_of(ss));
    let status = if sessions.len() == 0 {
        CalibrationRunStatus::Completed
    } else {
        CalibrationRunStatus::Running
    };
    let r = CalibrationProgressMessage {
        started_at,
        finished_at: None,
        status,
        current_step_id: None,
        steps,
    };
    assert(r@ =~= metrics_progress_of(ss, started_at));
    r
}

// ---------------------------------------------------------------------
// Counting rejections
// ---------------------------------------------------------------------

/// How many of the frames are rejected.
pub open spec fn rejected_in(fs: Seq<FileView>) -> nat
    decreases fs.len(),
{
    if fs.len() == 0 {
        0
    } else {
        rejected_in(fs.drop_last()) + if fs.last().state == FrameState::Rejected {
            1nat
        } else {
            0nat
        }
    }
}

/// No more frames are rejected than there are frames.
pub proof fn lemma_rejected_at_most_all(fs: Seq<FileView>)
    ensures
        rejected_in(fs) <= fs.len(),
    decreases fs.len(),
{
    if fs.len() > 0 {
        lemma_rejected_at_most_all(fs.drop_last());
    }
}

/// How many of the light frames are rejected.
pub fn count_rejected(lights: &Vec<File>) -> (r: usize)
    ensures
        r == rejected_in(file_views(lights@)),
{
    let ghost fs = file_views(lights@);
    let mut r: usize = 0;
    let mut k: usize = 0;
    while k < lights.len()
        invariant
            k <= lights.len(),
            fs == file_views(lights@),
            r == rejected_in(fs.take(k as int)),
        decreases lights.len() - k,
    {
        assert(fs.take(k + 1).drop_last() =~= fs.take(k as int));
        assert(fs.take(k + 1).last() == lights@[k as int]@);
        proof {
            lemma_rejected_at_most_all(fs.take(k as int));
        }
        if lights[k].state == FrameState::Rejected {
            r = r + 1;
        }
        k = k + 1;
    }
    assert(fs.take(lights.len() as int) =~= fs);
    r
}

// ---------------------------------------------------------------------
// The second grading pass
// ---------------------------------------------------------------------

/// The state a frame takes in the second grading pass, which classifies it
/// again against the score distribution: a frame rejected in the first pass
/// stays rejected; any other takes the new classification.
pub open spec fn regraded_state(previous: FrameState, classified: FrameState) -> FrameState {
    if previous == FrameState::Rejected {
        FrameState::Rejected
    } else {
        classified
    }
}

/// The state a frame in state `previous` takes when the second pass classifies
/// it as `classified`; a rejection is never undone.
pub fn second_pass_state(previous: FrameState, classified: FrameState) -> (r: FrameState)
    ensures
        r == regraded_state(previous, classified),
        previous == FrameState::Rejected ==> r == FrameState::Rejected,
{
    if previous == FrameState::Rejected {
        FrameState::Rejected
    } else {
        classified
    }
}

fn placeholder_step() -> (r: CalibrationProgressStep)
    ensures
        r@ == blank_step(),
{
    CalibrationProgressStep {
        id: String::new(),
        kind: CalibrationStepKind::Light,
        label: String::new(),
        session_uuid: String::new(),
        session_label: String::new(),
        count: 0,
        completed_count: 0,
        skipped_count: 0,
        rejected_count: 0,
        status: CalibrationStepStatus::Pending,
        started_at: None,
        ended_at: None,
        error: None,
    }
}

/// A step with its processed and rejected counts set.
pub open spec fn with_results(s: StepView, completed: usize, rejected: usize) -> StepView {
    StepView { completed_count: completed, rejected_count: rejected, ..s }
}

/// Sets the processed and rejected counts of step `step_index`, if it exists.
pub fn set_step_results(progress: &mut CalibrationProgressMessage, step_index: usize, completed: usize, rejected: usize)
    ensures
        step_index < old(progress)@.steps.len() ==> final(progress)@ == (ProgressView {
            steps: old(progress)@.steps.update(
                step_index as int,
                with_results(old(progress)@.steps[step_index as int], completed, rejected),
            ),
            ..old(progress)@
        }),
        step_index >= old(progress)@.steps.len() ==> final(progress)@ == old(progress)@,
{
    if step_index >= progress.steps.len() {
        return;
    }
    let ghost before = step_views(progress.steps@);
    let mut step = placeholder_step();
    progress.steps.set_and_swap(step_index, &mut step);
    step.completed_count = completed;
    step.rejected_count = rejected;
    progress.steps.set_and_swap(step_index, &mut step);
    assert(step_views(progress.steps@) =~= before.update(
        step_index as int,
        with_results(before[step_index as int], completed, rejected),
    ));
}

/// The steps with the final counts of their sessions: every light frame
/// processed, and as many rejected as are marked so. Steps past the last
/// session stay as they are.
pub open spec fn settled_steps(steps: Seq<StepView>, ss: Seq<SessionView>) -> Seq<StepView> {
    Seq::new(
        steps.len(),
        |i: int|
            if i < ss.len() {
                with_results(steps[i], ss[i].lights.len() as usize, rejected_in(ss[i].lights) as usize)
            } else {
                steps[i]
            },
    )
}

/// Sets every step's counts from the final verdicts of its session.
pub fn settle_rejected_counts(progress: &mut CalibrationProgressMessage, sessions: &Vec<AstroSession>)
    ensures
        final(progress)@ == (ProgressView {
            steps: settled_steps(old(progress)@.steps, session_views(sessions@)),
            ..old(progress)@
        }),
{
    let ghost p0 = progress@;
    let ghost ss = session_views(sessions@);
    let mut k: usize = 0;
    assert(progress@.steps =~= Seq::new(
        p0.steps.len(),
        |i: int|
            if i < 0 {
                with_results(p0.steps[i], ss[i].lights.len() as usize, rejected_in(ss[i].lights) as usize)
            } else {
                p0.steps[i]
            },
    ));
    while k < sessions.len()
        invariant
            k <= sessions.len(),
            ss == session_views(sessions@),
            progress@ == (ProgressView {
                steps: Seq::new(
                    p0.steps.len(),
                    |i: int|
                        if i < k {
                            with_results(p0.steps[i], ss[i].lights.len() as usize, rejected_in(ss[i].lights) as usize)
                        } else {
                            p0.steps[i]
                        },
                ),
                ..p0
            }),
        decreases sessions.len() - k,
    {
        let rejected = count_rejected(&sessions[k].lights);
        let ghost before = progress@;
        set_step_results(progress, k, sessions[k].lights.len(), rejected);
        assert(progress@.steps =~= Seq::new(
            p0.steps.len(),
            |i: int|
                if i < k + 1 {
                    with_results(p0.steps[i], ss[i].lights.len() as usize, rejected_in(ss[i].lights) as usize)
                } else {
                    p0.steps[i]
                },
        ));
        k = k + 1;
    }
    assert(progress@.steps =~= settled_steps(p0.steps, ss));
}

// ---------------------------------------------------------------------
// Copying verdicts back to the nights
// ---------------------------------------------------------------------

/// The verdict on the frame graded from the image at `key`.
#[derive(Debug, Clone)]
pub struct FrameVerdict {
    pub key: String,
    pub state: FrameState,
}

/// The latest verdict recorded under `key`, if any.
pub open spec fn verdict_for(vs: Seq<FrameVerdict>, key: Seq<char>) -> Option<FrameState>
    decreases vs.len(),
{
    if vs.len() == 0 {
        None
    } else if vs.last().key@ == key {
        Some(vs.last().state)
    } else {
        verdict_for(vs.drop_last(), key)
    }
}

/// The latest verdict recorded under `key`, if any.
pub fn find_verdict(verdicts: &Vec<FrameVerdict>, key: &str) -> (r: Option<FrameState>)
    ensures
        r == verdict_for(verdicts@, key@),
{
    let mut k: usize = verdicts.len();
    assert(verdicts@.take(k as int) =~= verdicts@);
    while k > 0
        invariant
            k <= verdicts.len(),
            verdict_for(verdicts@, key@) == verdict_for(verdicts@.take(k as int), key@),
        decreases k,
    {
        let ghost t = verdicts@.take(k as int);
        assert(t.drop_last() =~= verdicts@.take(k - 1));
        assert(t.last() == verdicts@[k - 1]);
        if text_equal(verdicts[k - 1].key.as_str(), key) {
            return Some(verdicts[k - 1].state);
        }
        k = k - 1;
    }
    None
}

/// A frame with the verdict on its graded image, when there is one.
pub open spec fn with_verdict(f: FileView, vs: Seq<FrameVerdict>) -> FileView {
    match verdict_for(vs, normalized_path(graded_path(f))) {
        Some(st) => FileView { state: st, ..f },
        None => f,
    }
}

/// The frames with their verdicts.
pub open spec fn files_with_verdicts(fs: Seq<FileView>, vs: Seq<FrameVerdict>) -> Seq<FileView> {
    fs.map_values(|f: FileView| with_verdict(f, vs))
}

/// The nights with the verdicts on their frames.
pub open spec fn nights_with_verdicts(ns: Seq<NightView>, vs: Seq<FrameVerdict>) -> Seq<NightView> {
    ns.map_values(|n: NightView| NightView { files: files_with_verdicts(n.files, vs), ..n })
}

fn placeholder_file() -> (r: File)
    ensures
        r@ == blank_file(),
{
    File {
        path: String::new(),
        name: String::new(),
        file_type: FileType::Light,
        uuid: String::new(),
        calibrated_frame: None,
        state: FrameState::Default,
    }
}

fn apply_verdicts(files: &mut Vec<File>, verdicts: &Vec<FrameVerdict>)
    ensures
        file_views(final(files)@) == files_with_verdicts(file_views(old(files)@), verdicts@),
{
    let ghost f0 = file_views(files@);
    let mut k: usize = 0;
    while k < files.len()
        invariant
            k <= files.len(),
            files@.len() == f0.len(),
            forall|i: int| 0 <= i < k ==> #[trigger] file_views(files@)[i] == with_verdict(f0[i], verdicts@),
            forall|i: int| k <= i < f0.len() ==> #[trigger] file_views(files@)[i] == f0[i],
        decreases files.len() - k,
    {
        let ghost before = files@;
        assert(file_views(before)[k as int] == f0[k as int]);
        let mut f = placeholder_file();
        files.set_and_swap(k, &mut f);
        assert(f@ == f0[k as int]);
        let graded = image_path_for_metrics(&f);
        let key = normalize_path(graded.as_str());
        match find_verdict(verdicts, key.as_str()) {
            Some(st) => {
                f.state = st;
            },
            None => {},
        }
        assert(f@ == with_verdict(f0[k as int], verdicts@));
        files.set_and_swap(k, &mut f);
        assert forall|i: int| 0 <= i < k + 1 implies #[trigger] file_views(files@)[i] == with_verdict(f0[i], verdicts@) by {
            if i < k {
                assert(files@[i] == before[i]);
                assert(file_views(before)[i] == with_verdict(f0[i], verdicts@));
            }
        }
        assert forall|i: int| k + 1 <= i < f0.len() implies #[trigger] file_views(files@)[i] == f0[i] by {
            assert(files@[i] == before[i]);
            assert(file_views(before)[i] == f0[i]);
        }
        k = k + 1;
    }
    assert(file_views(files@) =~= files_with_verdicts(f0, verdicts@));
}

fn placeholder_night() -> (r: RawNight)
    ensures
        r@ == blank_night(),
{
    RawNight { name: String::new(), files: Vec::new() }
}

/// Gives every frame of every night the latest verdict recorded under the
/// normalized path of its graded image, when there is one.
pub fn copy_metrics_back_to_raw_nights(state: &mut FeState, verdicts: &Vec<FrameVerdict>)
    ensures
        final(state)@ == (FeStateView {
            raw_nights: nights_with_verdicts(old(state)@.raw_nights, verdicts@),
            ..old(state)@
        }),
        night_names_distinct(old(state)@.raw_nights) ==> night_names_distinct(final(state)@.raw_nights),
{
    proof {
        let ns = old(state)@.raw_nights;
        let vs = nights_with_verdicts(ns, verdicts@);
        assert(same_night_names(ns, vs));
        if night_names_distinct(ns) {
            lemma_same_names_stay_distinct(ns, vs);
        }
    }
    let ghost s0 = state@;
    let ghost n0 = night_views(state.raw_nights@);
    let mut k: usize = 0;
    while k < state.raw_nights.len()
        invariant
            k <= state.raw_nights.len(),
            state.raw_nights@.len() == n0.len(),
            state.grouped_nights@ == old(state).grouped_nights@,
            state.active_grouped_session_uuid == old(state).active_grouped_session_uuid,
            state.current_preview_file == old(state).current_preview_file,
            s0 == old(state)@,
            n0 == s0.raw_nights,
            forall|i: int|
                0 <= i < k ==> #[trigger] night_views(state.raw_nights@)[i] == (NightView {
                    files: files_with_verdicts(n0[i].files, verdicts@),
                    ..n0[i]
                }),
            forall|i: int| k <= i < n0.len() ==> #[trigger] night_views(state.raw_nights@)[i] == n0[i],
        decreases state.raw_nights.len() - k,
    {
        let ghost before = state.raw_nights@;
        assert(night_views(before)[k as int] == n0[k as int]);
        let mut night = placeholder_night();
        state.raw_nights.set_and_swap(k, &mut night);
        assert(night@ == n0[k as int]);
        apply_verdicts(&mut night.files, verdicts);
        assert(night@ == (NightView { files: files_with_verdicts(n0[k as int].files, verdicts@), ..n0[k as int] }));
        state.raw_nights.set_and_swap(k, &mut night);
        assert forall|i: int| 0 <= i < k + 1 implies #[trigger] night_views(state.raw_nights@)[i] == (NightView {
            files: files_with_verdicts(n0[i].files, verdicts@),
            ..n0[i]
        }) by {
            if i < k {
                assert(state.raw_nights@[i] == before[i]);
                assert(night_views(before)[i] == (NightView { files: files_with_verdicts(n0[i].files, verdicts@), ..n0[i] }));
            }
        }
        assert forall|i: int| k + 1 <= i < n0.len() implies #[trigger] night_views(state.raw_nights@)[i] == n0[i] by {
            assert(state.raw_nights@[i] == before[i]);
            assert(night_views(before)[i] == n0[i]);
        }
        k = k + 1;
    }
    assert(night_views(state.raw_nights@) =~= nights_with_verdicts(n0, verdicts@));
    assert(state@ =~= (FeStateView { raw_nights: nights_with_verdicts(s0.raw_nights, verdicts@), ..s0 }));
}

} // verus!
