//! Changes to the front-end state: recording where calibrated frames went,
//! forgetting calibrations whose files are gone, settling a session's master
//! frames, and dropping files that were moved or deleted.
use vstd::prelude::*;
use vstd::pervasive::VecAdditionalExecFns;
use crate::calibration::{MasterType, frames_signature, frames_signature_of, master_file_name_text};
use crate::calibration_run::{master_output_path, set_step_counts};
use crate::progress::{CalibrationProgressMessage, ProgressView, StepView};
use crate::files::{File, FileView, blank_file, copy_opt_text, duplicate_files, file_views, opt_text};
use crate::fits::{FileType, FrameState};
use crate::paths::joined_path;
use crate::session::{
    AstroSession, FeState, FeStateView, MasterOrFrames, NightView, RawNight, SessionFingerprint,
    SessionView, SlotView, blank_night, blank_session, lemma_same_names_stay_distinct,
    night_names_distinct, night_views, same_night_names, session_views,
};
use crate::text::text_equal;

verus! {

// ---------------------------------------------------------------------
// Finding frames by path
// ---------------------------------------------------------------------

/// The first position of a frame at `p` in `fs`, or -1.
pub open spec fn first_path_index(fs: Seq<FileView>, p: Seq<char>) -> int
    decreases fs.len(),
{
    if fs.len() == 0 {
        -1
    } else if fs[0].path == p {
        0
    } else {
        let k = first_path_index(fs.drop_first(), p);
        if k < 0 {
            -1
        } else {
            k + 1
        }
    }
}

proof fn lemma_first_path_index(fs: Seq<FileView>, p: Seq<char>, i: int)
    requires
        0 <= i <= fs.len(),
        forall|j: int| 0 <= j < i ==> #[trigger] fs[j].path != p,
        i < fs.len() ==> fs[i].path == p,
    ensures
        first_path_index(fs, p) == (if i < fs.len() { i } else { -1 }),
    decreases i,
{
    if i > 0 {
        assert forall|j: int| 0 <= j < i - 1 implies #[trigger] fs.drop_first()[j].path != p by {
            assert(fs.drop_first()[j] == fs[j + 1]);
        }
        lemma_first_path_index(fs.drop_first(), p, i - 1);
    }
}

/// A frame with its calibrated copy and state set.
pub open spec fn with_calibration(f: FileView, cal: Option<Seq<char>>, st: FrameState) -> FileView {
    FileView { calibrated_frame: cal, state: st, ..f }
}

/// The frames with the first one at `p` given calibrated copy `cal` and state `st`.
pub open spec fn mark_first(fs: Seq<FileView>, p: Seq<char>, cal: Option<Seq<char>>, st: FrameState) -> Seq<
    FileView,
> {
    let k = first_path_index(fs, p);
    if k >= 0 {
        fs.update(k, with_calibration(fs[k], cal, st))
    } else {
        fs
    }
}

/// The first night that holds a frame at `p`, or -1.
pub open spec fn first_night_with(ns: Seq<NightView>, p: Seq<char>) -> int
    decreases ns.len(),
{
    if ns.len() == 0 {
        -1
    } else if first_path_index(ns[0].files, p) >= 0 {
        0
    } else {
        let k = first_night_with(ns.drop_first(), p);
        if k < 0 {
            -1
        } else {
            k + 1
        }
    }
}

proof fn lemma_first_night_with(ns: Seq<NightView>, p: Seq<char>, i: int)
    requires
        0 <= i <= ns.len(),
        forall|j: int| 0 <= j < i ==> first_path_index(#[trigger] ns[j].files, p) < 0,
        i < ns.len() ==> first_path_index(ns[i].files, p) >= 0,
    ensures
        first_night_with(ns, p) == (if i < ns.len() { i } else { -1 }),
    decreases i,
{
    if i > 0 {
        assert forall|j: int| 0 <= j < i - 1 implies first_path_index(#[trigger] ns.drop_first()[j].files, p) < 0 by {
            assert(ns.drop_first()[j] == ns[j + 1]);
        }
        lemma_first_night_with(ns.drop_first(), p, i - 1);
    }
}

/// The nights with the first frame at `p`, in the first night holding one,
/// given calibrated copy `cal` and state `st`.
pub open spec fn mark_in_nights(ns: Seq<NightView>, p: Seq<char>, cal: Option<Seq<char>>, st: FrameState) -> Seq<
    NightView,
> {
    let n = first_night_with(ns, p);
    if n >= 0 {
        ns.update(n, NightView { files: mark_first(ns[n].files, p, cal, st), ..ns[n] })
    } else {
        ns
    }
}

proof fn lemma_first_night_below(ns: Seq<NightView>, p: Seq<char>)
    ensures
        first_night_with(ns, p) < ns.len(),
    decreases ns.len(),
{
    if ns.len() > 0 {
        lemma_first_night_below(ns.drop_first(), p);
    }
}

/// Marking a frame keeps the names of the nights, so nights with distinct
/// names keep them distinct.
pub proof fn lemma_marking_keeps_night_names(ns: Seq<NightView>, p: Seq<char>, cal: Option<Seq<char>>, st: FrameState)
    ensures
        same_night_names(ns, mark_in_nights(ns, p, cal, st)),
        night_names_distinct(ns) ==> night_names_distinct(mark_in_nights(ns, p, cal, st)),
{
    let m = mark_in_nights(ns, p, cal, st);
    lemma_first_night_below(ns, p);
    assert(same_night_names(ns, m));
    if night_names_distinct(ns) {
        lemma_same_names_stay_distinct(ns, m);
    }
}

fn placeholder_file() -> (r: File)
    ensures
        r@ == blank_file(),
{
    File {
        path: String::new(),
        name: String::new(),
        file_type: FileType::Light,
        uuid: String::new(),
        calibrated_frame: None,
        state: FrameState::Default,
    }
}

fn set_file_calibration(files: &mut Vec<File>, k: usize, cal: Option<String>, st: FrameState)
    requires
        k < old(files).len(),
    ensures
        file_views(final(files)@) == file_views(old(files)@).update(
            k as int,
            with_calibration(old(files)@[k as int]@, opt_text(cal), st),
        ),
{
    let ghost before = file_views(files@);
    let mut f = placeholder_file();
    files.set_and_swap(k, &mut f);
    f.calibrated_frame = cal;
    f.state = st;
    files.set_and_swap(k, &mut f);
    assert(file_views(files@) =~= before.update(
        k as int,
        with_calibration(before[k as int], opt_text(cal), st),
    ));
}

/// Gives the first frame at `path` the calibrated copy `cal` and state `st`;
/// tells whether there was such a frame.
fn mark_first_file(files: &mut Vec<File>, path: &str, cal: Option<String>, st: FrameState) -> (r: bool)
    ensures
        file_views(final(files)@) == mark_first(file_views(old(files)@), path@, opt_text(cal), st),
        r == (first_path_index(file_views(old(files)@), path@) >= 0),
{
    let ghost fs = file_views(files@);
    let mut k: usize = 0;
    while k < files.len()
        invariant
            k <= files.len(),
            fs == file_views(files@),
            fs == file_views(old(files)@),
            forall|j: int| 0 <= j < k ==> #[trigger] fs[j].path != path@,
        decreases files.len() - k,
    {
        if text_equal(files[k].path.as_str(), path) {
            proof {
                lemma_first_path_index(fs, path@, k as int);
            }
            set_file_calibration(files, k, cal, st);
            return true;
        }
        k = k + 1;
    }
    proof {
        lemma_first_path_index(fs, path@, fs.len() as int);
    }
    false
}

fn placeholder_night() -> (r: RawNight)
    ensures
        r@ == blank_night(),
{
    RawNight { name: String::new(), files: Vec::new() }
}

/// Gives the first frame at `path`, in the first night holding one, the
/// calibrated copy `cal` and state `st`.
fn mark_in_raw_nights(nights: &mut Vec<RawNight>, path: &str, cal: Option<String>, st: FrameState)
    ensures
        night_views(final(nights)@) == mark_in_nights(night_views(old(nights)@), path@, opt_text(cal), st),
{
    let ghost ns = night_views(nights@);
    let mut n: usize = 0;
    while n < nights.len()
        invariant
            n <= nights.len(),
            ns == night_views(nights@),
            ns == night_views(old(nights)@),
            forall|j: int| 0 <= j < n ==> first_path_index(#[trigger] ns[j].files, path@) < 0,
        decreases nights.len() - n,
    {
        let mut night = placeholder_night();
        nights.set_and_swap(n, &mut night);
        let ghost night_before = night@;
        assert(night_before == ns[n as int]);
        let found = mark_first_file(&mut night.files, path, copy_opt_text(&cal), st);
        if found {
            nights.set_and_swap(n, &mut night);
            proof {
                lemma_first_night_with(ns, path@, n as int);
            }
            assert(night_views(nights@) =~= mark_in_nights(ns, path@, opt_text(cal), st));
            return;
        }
        assert(night@ == night_before);
        nights.set_and_swap(n, &mut night);
        assert(night_views(nights@) =~= ns);
        n = n + 1;
    }
    proof {
        lemma_first_night_with(ns, path@, ns.len() as int);
    }
}

// ---------------------------------------------------------------------
// Recording calibration outcomes
// ---------------------------------------------------------------------

/// The state after the light frame at `source` of session `si` was calibrated
/// into `cal`: the frame, in the session and in the first night holding it,
/// points to its calibrated copy and is marked Calibrated.
pub open spec fn recorded_state(s: FeStateView, si: int, source: Seq<char>, cal: Seq<char>) -> FeStateView {
    FeStateView {
        grouped_nights: s.grouped_nights.update(
            si,
            SessionView {
                lights: mark_first(s.grouped_nights[si].lights, source, Some(cal), FrameState::Calibrated),
                ..s.grouped_nights[si]
            },
        ),
        raw_nights: mark_in_nights(s.raw_nights, source, Some(cal), FrameState::Calibrated),
        ..s
    }
}

fn placeholder_session() -> (r: AstroSession)
    ensures
        r@ == blank_session(),
{
    AstroSession {
        uuid: String::new(),
        fingerprint: SessionFingerprint {
            name: String::new(),
            camera: String::new(),
            filter: String::new(),
            exposure: 0,
            gain: 0,
            temperature: 0,
        },
        lights: Vec::new(),
        darks: MasterOrFrames::Frames(Vec::new()),
        flats: MasterOrFrames::Frames(Vec::new()),
        biases: MasterOrFrames::Frames(Vec::new()),
        master_dark: None,
        master_flat: None,
        master_bias: None,
    }
}

/// Records that the light frame at `source_path` of session `session_index`
/// was calibrated into `calibrated_path`.
pub fn record_light_outcome(
    state: &mut FeState,
    session_index: usize,
    source_path: &str,
    calibrated_path: &str,
)
    requires
        session_index < old(state).grouped_nights.len(),
    ensures
        final(state)@ == recorded_state(old(state)@, session_index as int, source_path@, calibrated_path@),
        night_names_distinct(old(state)@.raw_nights) ==> night_names_distinct(final(state)@.raw_nights),
{
    proof {
        lemma_marking_keeps_night_names(
            old(state)@.raw_nights,
            source_path@,
            Some(calibrated_path@),
            FrameState::Calibrated,
        );
    }
    let ghost before = state@;
    let mut session = placeholder_session();
    state.grouped_nights.set_and_swap(session_index, &mut session);
    let ghost sb = session@;
    let mut cal = String::new();
    crate::text::append_text(&mut cal, calibrated_path);
    mark_first_file(&mut session.lights, source_path, Some(cal), FrameState::Calibrated);
    state.grouped_nights.set_and_swap(session_index, &mut session);
    let mut cal2 = String::new();
    crate::text::append_text(&mut cal2, calibrated_path);
    mark_in_raw_nights(&mut state.raw_nights, source_path, Some(cal2), FrameState::Calibrated);
    assert(state@.grouped_nights =~= before.grouped_nights.update(
        session_index as int,
        SessionView {
            lights: mark_first(sb.lights, source_path@, Some(calibrated_path@), FrameState::Calibrated),
            ..sb
        },
    ));
}

/// How a light frame came out of the calibration pipeline.
#[derive(Debug, Clone)]
pub enum LightCalibrationOutcome {
    /// The frame was calibrated into `calibrated_path`.
    Processed { source_path: String, calibrated_path: String },
    /// A valid calibrated copy already existed at `calibrated_path`.
    Skipped { source_path: String, calibrated_path: String },
}

/// Books one outcome of the light pipeline of session `session_index`, run as
/// step `step_index`: the frame is recorded as calibrated, the processed or
/// skipped count goes up by one, and the step shows the new counts.
pub fn book_light_outcome(
    state: &mut FeState,
    progress: &mut CalibrationProgressMessage,
    session_index: usize,
    step_index: usize,
    processed: usize,
    skipped: usize,
    outcome: LightCalibrationOutcome,
) -> (r: (usize, usize))
    requires
        session_index < old(state).grouped_nights.len(),
        processed < usize::MAX,
        skipped < usize::MAX,
    ensures
        outcome is Processed ==> r.0 == processed + 1 && r.1 == skipped,
        outcome is Skipped ==> r.0 == processed && r.1 == skipped + 1,
        final(state)@ == (match outcome {
            LightCalibrationOutcome::Processed { source_path, calibrated_path } => recorded_state(
                old(state)@,
                session_index as int,
                source_path@,
                calibrated_path@,
            ),
            LightCalibrationOutcome::Skipped { source_path, calibrated_path } => recorded_state(
                old(state)@,
                session_index as int,
                source_path@,
                calibrated_path@,
            ),
        }),
        step_index < old(progress)@.steps.len() ==> final(progress)@ == (ProgressView {
            steps: old(progress)@.steps.update(
                step_index as int,
                StepView { completed_count: r.0, skipped_count: r.1, ..old(progress)@.steps[step_index as int] },
            ),
            ..old(progress)@
        }),
        step_index >= old(progress)@.steps.len() ==> final(progress)@ == old(progress)@,
{
    let counts = match &outcome {
        LightCalibrationOutcome::Processed { source_path, calibrated_path } => {
            record_light_outcome(state, session_index, source_path.as_str(), calibrated_path.as_str());
            (processed + 1, skipped)
        },
        LightCalibrationOutcome::Skipped { source_path, calibrated_path } => {
            record_light_outcome(state, session_index, source_path.as_str(), calibrated_path.as_str());
            (processed, skipped + 1)
        },
    };
    set_step_counts(progress, step_index, counts.0, counts.1);
    counts
}

/// The state after the calibrated copy of light `li` of session `si` was found
/// missing: the frame, in the session and in the first night holding a frame
/// at its path, loses its calibrated copy and goes back to Default.
pub open spec fn forgotten_state(s: FeStateView, si: int, li: int) -> FeStateView {
    let f = s.grouped_nights[si].lights[li];
    FeStateView {
        grouped_nights: s.grouped_nights.update(
            si,
            SessionView {
                lights: s.grouped_nights[si].lights.update(
                    li,
                    with_calibration(f, None, FrameState::Default),
                ),
                ..s.grouped_nights[si]
            },
        ),
        raw_nights: mark_in_nights(s.raw_nights, f.path, None, FrameState::Default),
        ..s
    }
}

/// Forgets the calibrated copy of light `light_index` of session
/// `session_index`, whose file no longer exists.
pub fn forget_calibration(state: &mut FeState, session_index: usize, light_index: usize)
    requires
        session_index < old(state).grouped_nights.len(),
        light_index < old(state).grouped_nights@[session_index as int].lights.len(),
    ensures
        final(state)@ == forgotten_state(old(state)@, session_index as int, light_index as int),
        night_names_distinct(old(state)@.raw_nights) ==> night_names_distinct(final(state)@.raw_nights),
{
    proof {
        lemma_marking_keeps_night_names(
            old(state)@.raw_nights,
            old(state)@.grouped_nights[session_index as int].lights[light_index as int].path,
            None,
            FrameState::Default,
        );
    }
    let ghost before = state@;
    let mut session = placeholder_session();
    state.grouped_nights.set_and_swap(session_index, &mut session);
    let ghost sb = session@;
    let path = session.lights[light_index].path.clone();
    set_file_calibration(&mut session.lights, light_index, None, FrameState::Default);
    state.grouped_nights.set_and_swap(session_index, &mut session);
    mark_in_raw_nights(&mut state.raw_nights, path.as_str(), None, FrameState::Default);
    assert(state@.grouped_nights =~= before.grouped_nights.update(
        session_index as int,
        SessionView {
            lights: sb.lights.update(
                light_index as int,
                with_calibration(sb.lights[light_index as int], None, FrameState::Default),
            ),
            ..sb
        },
    ));
}

/// The frames that have no calibrated copy yet, in order.
pub open spec fn uncalibrated(fs: Seq<FileView>) -> Seq<FileView>
    decreases fs.len(),
{
    if fs.len() == 0 {
        fs
    } else if fs.last().calibrated_frame is None {
        uncalibrated(fs.drop_last()).push(fs.last())
    } else {
        uncalibrated(fs.drop_last())
    }
}

/// The light frames of a session still to be calibrated.
pub fn lights_to_calibrate(lights: &Vec<File>) -> (r: Vec<File>)
    ensures
        file_views(r@) == uncalibrated(file_views(lights@)),
{
    let mut r: Vec<File> = Vec::new();
    let mut k: usize = 0;
    while k < lights.len()
        invariant
            k <= lights.len(),
            file_views(r@) == uncalibrated(file_views(lights@).take(k as int)),
        decreases lights.len() - k,
    {
        assert(file_views(lights@).take(k + 1).drop_last() =~= file_views(lights@).take(k as int));
        if lights[k].calibrated_frame.is_none() {
            let ghost before = r@;
            r.push(lights[k].duplicate());
            assert(file_views(r@) =~= file_views(before).push(lights@[k as int]@));
        }
        k = k + 1;
    }
    assert(file_views(lights@).take(lights.len() as int) =~= file_views(lights@));
    r
}

/// The number of frames that already have a calibrated copy.
pub open spec fn calibrated_count(fs: Seq<FileView>) -> nat
    decreases fs.len(),
{
    if fs.len() == 0 {
        0
    } else if fs.last().calibrated_frame is None {
        calibrated_count(fs.drop_last())
    } else {
        calibrated_count(fs.drop_last()) + 1
    }
}

/// Each frame is either still to be calibrated or already calibrated: the two
/// counts add up to the number of frames.
pub proof fn lemma_calibrated_split(fs: Seq<FileView>)
    ensures
        uncalibrated(fs).len() + calibrated_count(fs) == fs.len(),
    decreases fs.len(),
{
    if fs.len() > 0 {
        lemma_calibrated_split(fs.drop_last());
    }
}

/// Starts the light step of a session: gives the light frames still to be
/// calibrated and how many are skipped because they already have a calibrated
/// copy, and sets step `step_index`, if it exists, to none processed and that
/// many skipped.
pub fn start_light_step(progress: &mut CalibrationProgressMessage, step_index: usize, lights: &Vec<File>) -> (r: (
    Vec<File>,
    usize,
))
    ensures
        file_views(r.0@) == uncalibrated(file_views(lights@)),
        r.1 == calibrated_count(file_views(lights@)),
        r.0.len() + r.1 == lights.len(),
        step_index < old(progress)@.steps.len() ==> final(progress)@ == (ProgressView {
            steps: old(progress)@.steps.update(
                step_index as int,
                StepView {
                    completed_count: 0,
                    skipped_count: r.1,
                    ..old(progress)@.steps[step_index as int]
                },
            ),
            ..old(progress)@
        }),
        step_index >= old(progress)@.steps.len() ==> final(progress)@ == old(progress)@,
{
    let to_do = lights_to_calibrate(lights);
    proof {
        lemma_calibrated_split(file_views(lights@));
        assert(to_do.len() == file_views(to_do@).len());
    }
    let skipped = lights.len() - to_do.len();
    set_step_counts(progress, step_index, 0, skipped);
    (to_do, skipped)
}

// ---------------------------------------------------------------------
// Settling master frames
// ---------------------------------------------------------------------

/// The session with the path of its master of type `t` set to `path`.
pub open spec fn with_master_path(s: SessionView, t: MasterType, path: Option<Seq<char>>) -> SessionView {
    match t {
        MasterType::Dark => SessionView { master_dark: path, ..s },
        MasterType::Flat => SessionView { master_flat: path, ..s },
        MasterType::Bias => SessionView { master_bias: path, ..s },
    }
}

/// Sets the path of the session's master of this type.
pub fn set_session_master_path(session: &mut AstroSession, master_type: MasterType, path: Option<String>)
    ensures
        final(session)@ == with_master_path(old(session)@, master_type, opt_text(path)),
{
    match master_type {
        MasterType::Dark => session.master_dark = path,
        MasterType::Flat => session.master_flat = path,
        MasterType::Bias => session.master_bias = path,
    }
}

/// A master already stacked in this run, under its type and signature.
#[derive(Debug, Clone)]
pub struct MasterCacheEntry {
    pub master_type: MasterType,
    pub signature: u64,
    pub path: String,
}

/// The first cached master of type `t` and signature `sig`, if any.
pub open spec fn cached_path(cache: Seq<MasterCacheEntry>, t: MasterType, sig: u64) -> Option<Seq<char>>
    decreases cache.len(),
{
    if cache.len() == 0 {
        None
    } else if cache[0].master_type == t && cache[0].signature == sig {
        Some(cache[0].path@)
    } else {
        cached_path(cache.drop_first(), t, sig)
    }
}

/// Where a session's master of one type comes from.
#[derive(Debug, Clone)]
pub enum MasterSource {
    /// The session was given a master frame at this path.
    Given(String),
    /// The session has no frames of this type.
    Missing,
    /// A master from the same frames was stacked earlier in this run, at this path.
    Cached(String),
    /// A master is to be stacked (or, if the file exists, reused) at this path.
    Stack { signature: u64, output_path: String },
}

/// Where a session's master of type `t` comes from, given its slot, the run's
/// cache of stacked masters and the temporary folder.
pub open spec fn master_source_of(
    slot: SlotView,
    t: MasterType,
    temp_folder: Seq<char>,
    cache: Seq<MasterCacheEntry>,
) -> MasterSourceView {
    match slot {
        SlotView::Master(f) => MasterSourceView::Given(f.path),
        SlotView::Frames(fs) => if fs.len() == 0 {
            MasterSourceView::Missing
        } else {
            let sig = frames_signature_of(fs);
            match cached_path(cache, t, sig) {
                Some(p) => MasterSourceView::Cached(p),
                None => MasterSourceView::Stack {
                    signature: sig,
                    output_path: joined_path(temp_folder, master_file_name_text(t, sig)),
                },
            }
        },
    }
}

pub enum MasterSourceView {
    Given(Seq<char>),
    Missing,
    Cached(Seq<char>),
    Stack { signature: u64, output_path: Seq<char> },
}

impl View for MasterSource {
    type V = MasterSourceView;

    open spec fn view(&self) -> MasterSourceView {
        match self {
            MasterSource::Given(p) => MasterSourceView::Given(p@),
            MasterSource::Missing => MasterSourceView::Missing,
            MasterSource::Cached(p) => MasterSourceView::Cached(p@),
            MasterSource::Stack { signature, output_path } => MasterSourceView::Stack {
                signature: *signature,
                output_path: output_path@,
            },
        }
    }
}

/// Where a session's master of this type comes from.
pub fn resolve_master_source(
    slot: &MasterOrFrames,
    master_type: MasterType,
    temp_folder: &str,
    cache: &Vec<MasterCacheEntry>,
) -> (r: MasterSource)
    ensures
        r@ == master_source_of(slot@, master_type, temp_folder@, cache@),
{
    match slot {
        MasterOrFrames::Master(file) => MasterSource::Given(file.path.clone()),
        MasterOrFrames::Frames(frames) => {
            if frames.len() == 0 {
                return MasterSource::Missing;
            }
            let signature = frames_signature(frames);
            let mut k: usize = 0;
            assert(cache@.skip(0) =~= cache@);
            while k < cache.len()
                invariant
                    k <= cache.len(),
                    frames@.len() > 0,
                    signature == frames_signature_of(file_views(frames@)),
                    slot@ == SlotView::Frames(file_views(frames@)),
                    cached_path(cache@, master_type, signature) == cached_path(
                        cache@.skip(k as int),
                        master_type,
                        signature,
                    ),
                decreases cache.len() - k,
            {
                assert(cache@.skip(k as int).drop_first() =~= cache@.skip(k + 1));
                assert(cache@.skip(k as int)[0] == cache@[k as int]);
                if cache[k].master_type == master_type && cache[k].signature == signature {
                    let p = cache[k].path.clone();
                    assert(p@ == cache@[k as int].path@);
                    return MasterSource::Cached(p);
                }
                k = k + 1;
            }
            MasterSource::Stack {
                signature,
                output_path: master_output_path(temp_folder, master_type, signature),
            }
        },
    }
}

/// Remembers a stacked master, unless one of the same type and signature is
/// already remembered.
pub fn remember_master(cache: &mut Vec<MasterCacheEntry>, master_type: MasterType, signature: u64, path: String)
    ensures
        cached_path(old(cache)@, master_type, signature) is Some ==> final(cache)@ == old(cache)@,
        cached_path(old(cache)@, master_type, signature) is None ==> final(cache)@ == old(cache)@.push(
            MasterCacheEntry { master_type, signature, path },
        ),
        cached_path(final(cache)@, master_type, signature) == Some(
            match cached_path(old(cache)@, master_type, signature) {
                Some(p) => p,
                None => path@,
            },
        ),
{
    let ghost c0 = cache@;
    let mut k: usize = 0;
    assert(c0.skip(0) =~= c0);
    while k < cache.len()
        invariant
            k <= cache.len(),
            cache@ == c0,
            cached_path(c0, master_type, signature) == cached_path(c0.skip(k as int), master_type, signature),
        decreases cache.len() - k,
    {
        assert(c0.skip(k as int).drop_first() =~= c0.skip(k + 1));
        assert(c0.skip(k as int)[0] == c0[k as int]);
        if cache[k].master_type == master_type && cache[k].signature == signature {
            return;
        }
        k = k + 1;
    }
    assert(c0.skip(c0.len() as int) =~= Seq::<MasterCacheEntry>::empty());
    let ghost entry = MasterCacheEntry { master_type, signature, path };
    cache.push(MasterCacheEntry { master_type, signature, path });
    proof {
        lemma_cached_path_push(c0, entry, master_type, signature);
    }
}

/// A master remembered for a type and a set of frames is what any session
/// with frames of the same signature gets afterwards, without stacking again:
/// once `remember_master` ran, `resolve_master_source` answers from the cache.
pub proof fn lemma_remembered_master_is_reused(
    fs: Seq<FileView>,
    t: MasterType,
    temp_folder: Seq<char>,
    cache: Seq<MasterCacheEntry>,
    path: String,
    after: Seq<MasterCacheEntry>,
)
    requires
        fs.len() > 0,
        cached_path(cache, t, frames_signature_of(fs)) is None ==> after == cache.push(
            MasterCacheEntry { master_type: t, signature: frames_signature_of(fs), path },
        ),
        cached_path(cache, t, frames_signature_of(fs)) is Some ==> after == cache,
    ensures
        master_source_of(SlotView::Frames(fs), t, temp_folder, after) == MasterSourceView::Cached(
            match cached_path(cache, t, frames_signature_of(fs)) {
                Some(p) => p,
                None => path@,
            },
        ),
{
    let entry = MasterCacheEntry { master_type: t, signature: frames_signature_of(fs), path };
    if cached_path(cache, t, frames_signature_of(fs)) is None {
        lemma_cached_path_push(cache, entry, t, frames_signature_of(fs));
    }
}

proof fn lemma_cached_path_push(c: Seq<MasterCacheEntry>, e: MasterCacheEntry, t: MasterType, sig: u64)
    requires
        cached_path(c, t, sig) is None,
    ensures
        cached_path(c.push(e), t, sig) == if e.master_type == t && e.signature == sig {
            Some(e.path@)
        } else {
            None
        },
    decreases c.len(),
{
    if c.len() > 0 {
        assert(c.push(e)[0] == c[0]);
        assert(c.push(e).drop_first() =~= c.drop_first().push(e));
        lemma_cached_path_push(c.drop_first(), e, t, sig);
    } else {
        assert(c.push(e)[0] == e);
        assert(c.push(e).drop_first() =~= Seq::<MasterCacheEntry>::empty());
        assert(cached_path(Seq::<MasterCacheEntry>::empty(), t, sig) is None);
    }
}

} // verus!
