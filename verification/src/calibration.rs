//! Planning a calibration run: which master frames to stack (once per set of
//! source frames), which sessions' light frames to calibrate, and how the run
//! is reported.
use vstd::prelude::*;
use crate::files::{File, FileView, file_type_named, file_views};
use crate::fits::FileType;
use crate::progress::{
    CalibrationProgressMessage, CalibrationProgressStep, CalibrationRunStatus, CalibrationStepKind,
    CalibrationStepStatus, ProgressView, StepView, step_views,
};
use crate::session::{AstroSession, FingerprintView, MasterOrFrames, SessionView, SlotView, session_views};
use crate::session_order::{lemma_text_order_total, sort_texts, text_order, text_views};
use crate::text::{
    append_text, ascii_lowercase, hex16, hex16_text, is_ascii_text, milli_text, milli_to_text, text_of,
};

verus! {

/// The kinds of master frame.
#[derive(Debug, Clone, Copy, PartialEq, Eq, Structural)]
pub enum MasterType {
    Dark,
    Flat,
    Bias,
}

/// The word for a master type in file names.
pub open spec fn master_file_word(t: MasterType) -> Seq<char> {
    match t {
        MasterType::Dark => "dark"@,
        MasterType::Flat => "flat"@,
        MasterType::Bias => "bias"@,
    }
}

/// The IMAGETYP value written into a master frame.
pub open spec fn master_image_type(t: MasterType) -> Seq<char> {
    match t {
        MasterType::Dark => "master dark"@,
        MasterType::Flat => "master flat"@,
        MasterType::Bias => "master bias"@,
    }
}

/// The frame type of a master of type `t`.
pub open spec fn master_frame_type(t: MasterType) -> FileType {
    match t {
        MasterType::Dark => FileType::MasterDark,
        MasterType::Flat => FileType::MasterFlat,
        MasterType::Bias => FileType::MasterBias,
    }
}

/// A master frame reads back as what it is: the IMAGETYP value written into a
/// master is ASCII, and lower-cased it names the master's own frame type, so
/// `file_type_from_image_type` gives that type for it.
pub proof fn lemma_master_type_reads_back(t: MasterType)
    ensures
        is_ascii_text(master_image_type(t)),
        file_type_named(ascii_lowercase(master_image_type(t))) == master_frame_type(t),
{
    reveal_strlit("master dark");
    reveal_strlit("master flat");
    reveal_strlit("master bias");
    reveal_strlit("light");
    reveal_strlit("master light");
    reveal_strlit("dark");
    reveal_strlit("flat");
    reveal_strlit("bias");
    let v = master_image_type(t);
    assert(ascii_lowercase(v) =~= v);
    assert(v.len() == 11 && v[7] != "master light"@[7]);
    assert(v != "light"@ && v != "master light"@ && v != "dark"@ && v != "flat"@ && v != "bias"@);
    match t {
        MasterType::Dark => {},
        MasterType::Flat => {
            assert(v[7] != "master dark"@[7]);
        },
        MasterType::Bias => {
            assert(v[7] != "master dark"@[7]);
            assert(v[7] != "master flat"@[7]);
        },
    }
}

impl MasterType {
    /// The word for this master type in file names.
    pub fn as_file_name_part(self) -> (r: &'static str)
        ensures
            r@ == master_file_word(self),
    {
        match self {
            MasterType::Dark => "dark",
            MasterType::Flat => "flat",
            MasterType::Bias => "bias",
        }
    }

    /// The IMAGETYP value written into a master frame of this type.
    pub fn as_image_type_value(self) -> (r: &'static str)
        ensures
            r@ == master_image_type(self),
    {
        match self {
            MasterType::Dark => "master dark",
            MasterType::Flat => "master flat",
            MasterType::Bias => "master bias",
        }
    }
}

/// The calibration step that stacks a master of type `t`.
pub open spec fn step_kind_of(t: MasterType) -> CalibrationStepKind {
    match t {
        MasterType::Dark => CalibrationStepKind::Dark,
        MasterType::Flat => CalibrationStepKind::Flat,
        MasterType::Bias => CalibrationStepKind::Bias,
    }
}

/// The calibration step that stacks a master of this type.
pub fn master_type_to_step_kind(master_type: MasterType) -> (r: CalibrationStepKind)
    ensures
        r == step_kind_of(master_type),
{
    match master_type {
        MasterType::Dark => CalibrationStepKind::Dark,
        MasterType::Flat => CalibrationStepKind::Flat,
        MasterType::Bias => CalibrationStepKind::Bias,
    }
}

/// The label shown for a step of kind `k`.
pub open spec fn kind_label_text(k: CalibrationStepKind) -> Seq<char> {
    match k {
        CalibrationStepKind::Dark => "Stacking dark frames"@,
        CalibrationStepKind::Flat => "Stacking flat frames"@,
        CalibrationStepKind::Bias => "Stacking bias frames"@,
        CalibrationStepKind::Light => "Calibrating light frames"@,
    }
}

/// The name of a step kind, as its `Debug` form writes it.
pub open spec fn kind_name(k: CalibrationStepKind) -> Seq<char> {
    match k {
        CalibrationStepKind::Dark => "Dark"@,
        CalibrationStepKind::Flat => "Flat"@,
        CalibrationStepKind::Bias => "Bias"@,
        CalibrationStepKind::Light => "Light"@,
    }
}

/// The label shown for a step of this kind.
pub fn kind_label(kind: &CalibrationStepKind) -> (r: &'static str)
    ensures
        r@ == kind_label_text(*kind),
{
    match kind {
        CalibrationStepKind::Dark => "Stacking dark frames",
        CalibrationStepKind::Flat => "Stacking flat frames",
        CalibrationStepKind::Bias => "Stacking bias frames",
        CalibrationStepKind::Light => "Calibrating light frames",
    }
}

fn kind_name_text(kind: CalibrationStepKind) -> (r: &'static str)
    ensures
        r@ == kind_name(kind),
{
    match kind {
        CalibrationStepKind::Dark => "Dark",
        CalibrationStepKind::Flat => "Flat",
        CalibrationStepKind::Bias => "Bias",
        CalibrationStepKind::Light => "Light",
    }
}

/// How a session is named in progress reports:
/// `night - filter - exposure(2 decimals)s - gain G(2 decimals) - temperature(1 decimal)C`.
pub open spec fn session_label_text(f: FingerprintView) -> Seq<char> {
    if f.name.len() == 0 {
        "Unnamed session"@
    } else {
        f.name + " - "@ + f.filter + " - "@ + milli_text(f.exposure as int, 2) + "s - gain "@
            + milli_text(f.gain as int, 2) + " - "@ + milli_text(f.temperature as int, 1) + "C"@
    }
}

/// How a session is named in progress reports.
pub fn session_label(session: &AstroSession) -> (r: String)
    ensures
        r@ == session_label_text(session@.fingerprint),
{
    let f = &session.fingerprint;
    if f.name.as_str().is_empty() {
        return text_of("Unnamed session");
    }
    let mut s = String::new();
    append_text(&mut s, f.name.as_str());
    append_text(&mut s, " - ");
    append_text(&mut s, f.filter.as_str());
    append_text(&mut s, " - ");
    let exposure = milli_to_text(f.exposure, 2);
    append_text(&mut s, exposure.as_str());
    append_text(&mut s, "s - gain ");
    let gain = milli_to_text(f.gain, 2);
    append_text(&mut s, gain.as_str());
    append_text(&mut s, " - ");
    let temperature = milli_to_text(f.temperature, 1);
    append_text(&mut s, temperature.as_str());
    append_text(&mut s, "C");
    assert(s@ =~= session_label_text(session@.fingerprint));
    s
}

// ---------------------------------------------------------------------
// Signatures of frame sets
// ---------------------------------------------------------------------

/// The 64-bit XXH3 hash (default seed and secret) of `data`.
pub uninterp spec fn xxh3_64_of(data: Seq<u8>) -> u64;

/// `twox_hash::XxHash3_64::oneshot`: the XXH3 64-bit hash of the bytes, which
/// equals what the streaming hasher gives after writing the same bytes in any
/// number of pieces.
#[verifier::external_body]
fn xxh3_64(data: &[u8]) -> (r: u64)
    ensures
        r == xxh3_64_of(data@),
{
    twox_hash::XxHash3_64::oneshot(data)
}

/// The UTF-8 bytes of the texts `ids`, one after the other.
pub open spec fn utf8_joined(ids: Seq<Seq<char>>) -> Seq<u8>
    decreases ids.len(),
{
    if ids.len() == 0 {
        Seq::empty()
    } else {
        utf8_joined(ids.drop_last()) + vstd::utf8::encode_utf8(ids.last())
    }
}

/// The identities of the frames.
pub open spec fn frame_ids(frames: Seq<FileView>) -> Seq<Seq<char>> {
    frames.map_values(|f: FileView| f.uuid)
}

/// The signature of a set of frames: the hash of their identities in sorted order,
/// so that it does not depend on the order in which the frames are listed.
pub open spec fn frames_signature_of(frames: Seq<FileView>) -> u64 {
    xxh3_64_of(utf8_joined(frame_ids(frames).sort_by(text_order())))
}

/// The signature of a set of frames does not depend on the order in which
/// the frames are listed: frames with the same identities, each as often, have
/// the same signature.
pub proof fn lemma_signature_ignores_order(a: Seq<FileView>, b: Seq<FileView>)
    requires
        frame_ids(a).to_multiset() == frame_ids(b).to_multiset(),
    ensures
        frames_signature_of(a) == frames_signature_of(b),
{
    lemma_text_order_total();
    frame_ids(a).lemma_sort_by_ensures(text_order());
    frame_ids(b).lemma_sort_by_ensures(text_order());
    vstd::seq_lib::lemma_sorted_unique(
        frame_ids(a).sort_by(text_order()),
        frame_ids(b).sort_by(text_order()),
        text_order(),
    );
}

/// The signature of a set of frames.
pub fn frames_signature(frames: &Vec<File>) -> (r: u64)
    ensures
        r == frames_signature_of(file_views(frames@)),
{
    let mut ids: Vec<String> = Vec::new();
    let mut i: usize = 0;
    while i < frames.len()
        invariant
            i <= frames.len(),
            ids@.len() == i,
            forall|j: int| 0 <= j < i ==> #[trigger] ids@[j]@ == frames@[j].uuid@,
        decreases frames.len() - i,
    {
        ids.push(frames[i].uuid.clone());
        i = i + 1;
    }
    assert(text_views(ids@) =~= frame_ids(file_views(frames@)));
    let sorted = sort_texts(ids);
    let mut bytes: Vec<u8> = Vec::new();
    let mut k: usize = 0;
    while k < sorted.len()
        invariant
            k <= sorted.len(),
            bytes@ == utf8_joined(text_views(sorted@).take(k as int)),
        decreases sorted.len() - k,
    {
        let b = sorted[k].as_str().as_bytes();
        let ghost before = bytes@;
        let mut j: usize = 0;
        while j < b.len()
            invariant
                j <= b.len(),
                bytes@ == before + b@.take(j as int),
            decreases b.len() - j,
        {
            bytes.push(b[j]);
            j = j + 1;
            assert(b@.take(j as int) =~= b@.take((j - 1) as int).push(b@[j - 1]));
        }
        assert(b@.take(b.len() as int) =~= b@);
        assert(text_views(sorted@).take(k + 1).drop_last() =~= text_views(sorted@).take(k as int));
        k = k + 1;
    }
    assert(text_views(sorted@).take(sorted.len() as int) =~= text_views(sorted@));
    xxh3_64(bytes.as_slice())
}

/// The file name of the master of type `t` stacked from frames with signature
/// `signature`: `master_<type>_<signature as 16 hex digits>.fits`.
pub open spec fn master_file_name_text(t: MasterType, signature: u64) -> Seq<char> {
    "master_"@ + master_file_word(t) + "_"@ + hex16_text(signature as nat) + ".fits"@
}

/// The file name of the master of this type stacked from frames with this signature.
pub fn master_file_name(master_type: MasterType, signature: u64) -> (r: String)
    ensures
        r@ == master_file_name_text(master_type, signature),
{
    let mut s = text_of("master_");
    append_text(&mut s, master_type.as_file_name_part());
    append_text(&mut s, "_");
    let hex = hex16(signature);
    append_text(&mut s, hex.as_str());
    append_text(&mut s, ".fits");
    assert(s@ =~= master_file_name_text(master_type, signature));
    s
}

// ---------------------------------------------------------------------
// The plan of a calibration run
// ---------------------------------------------------------------------

/// What one step of a calibration run does.
#[derive(Debug, Clone, Copy, PartialEq, Eq, Structural)]
pub enum CalibrationWorkItemTask {
    /// Stack the session's frames of this type into a master.
    Master(MasterType),
    /// Calibrate the session's light frames.
    CalibrateLights,
}

/// One step of a calibration run, on one session.
#[derive(Debug, Clone, Copy, PartialEq, Eq, Structural)]
pub struct CalibrationWorkItem {
    pub session_index: usize,
    pub task: CalibrationWorkItemTask,
}

/// A session's slot of calibration frames of type `t`.
pub open spec fn slot_of_type(s: SessionView, t: MasterType) -> SlotView {
    match t {
        MasterType::Dark => s.darks,
        MasterType::Flat => s.flats,
        MasterType::Bias => s.biases,
    }
}

/// A master to be stacked: for which session, of which type, from which frames.
pub struct MasterJob {
    pub session_index: int,
    pub master_type: MasterType,
    pub signature: u64,
    pub count: nat,
}

/// The master of type `t` that session `i` needs stacked, if any: one when its
/// slot holds frames rather than a master.
pub open spec fn job_for(s: SessionView, i: int, t: MasterType) -> Seq<MasterJob> {
    match slot_of_type(s, t) {
        SlotView::Frames(fs) => if fs.len() > 0 {
            seq![MasterJob { session_index: i, master_type: t, signature: frames_signature_of(fs), count: fs.len() }]
        } else {
            Seq::empty()
        },
        SlotView::Master(_) => Seq::empty(),
    }
}

/// The masters session `i` needs stacked: dark, flat, bias.
pub open spec fn session_jobs(s: SessionView, i: int) -> Seq<MasterJob> {
    job_for(s, i, MasterType::Dark) + job_for(s, i, MasterType::Flat) + job_for(s, i, MasterType::Bias)
}

/// The masters the sessions need stacked, session by session.
pub open spec fn all_jobs(ss: Seq<SessionView>) -> Seq<MasterJob>
    decreases ss.len(),
{
    if ss.len() == 0 {
        Seq::empty()
    } else {
        all_jobs(ss.drop_last()) + session_jobs(ss.last(), ss.len() - 1)
    }
}

/// Whether `js` already holds a master of the same type and signature as `j`.
pub open spec fn job_seen(js: Seq<MasterJob>, j: MasterJob) -> bool {
    exists|k: int|
        0 <= k < js.len() && (#[trigger] js[k]).master_type == j.master_type && js[k].signature
            == j.signature
}

/// The masters of `js`, each type and signature kept at its first occurrence.
pub open spec fn first_jobs(js: Seq<MasterJob>) -> Seq<MasterJob>
    decreases js.len(),
{
    if js.len() == 0 {
        js
    } else {
        let prev = first_jobs(js.drop_last());
        if job_seen(prev, js.last()) {
            prev
        } else {
            prev.push(js.last())
        }
    }
}

/// The positions of the sessions that have light frames.
pub open spec fn light_sessions(ss: Seq<SessionView>) -> Seq<int>
    decreases ss.len(),
{
    if ss.len() == 0 {
        Seq::empty()
    } else if ss.last().lights.len() > 0 {
        light_sessions(ss.drop_last()).push(ss.len() - 1)
    } else {
        light_sessions(ss.drop_last())
    }
}

/// How many of the frames already have a calibrated copy.
pub open spec fn calibrated_count(fs: Seq<FileView>) -> nat
    decreases fs.len(),
{
    if fs.len() == 0 {
        0
    } else {
        calibrated_count(fs.drop_last()) + if fs.last().calibrated_frame is Some {
            1nat
        } else {
            0nat
        }
    }
}

/// A step not yet started.
pub open spec fn pending_step(
    id: Seq<char>,
    kind: CalibrationStepKind,
    s: SessionView,
    count: nat,
    skipped: nat,
) -> StepView {
    StepView {
        id,
        kind,
        label: kind_label_text(kind),
        session_uuid: s.uuid,
        session_label: session_label_text(s.fingerprint),
        count: count as usize,
        completed_count: 0,
        skipped_count: skipped as usize,
        rejected_count: 0,
        status: CalibrationStepStatus::Pending,
        started_at: None,
        ended_at: None,
        error: None,
    }
}

/// The step that stacks the master `j`.
pub open spec fn master_step(ss: Seq<SessionView>, j: MasterJob) -> StepView {
    let s = ss[j.session_index];
    let kind = step_kind_of(j.master_type);
    pending_step(s.uuid + ":"@ + kind_name(kind), kind, s, j.count, 0)
}

/// The step that calibrates the light frames of session `i`; frames that
/// already have a calibrated copy count as skipped.
pub open spec fn light_step(ss: Seq<SessionView>, i: int) -> StepView {
    let s = ss[i];
    pending_step(
        s.uuid + ":"@ + kind_name(CalibrationStepKind::Light),
        CalibrationStepKind::Light,
        s,
        s.lights.len(),
        calibrated_count(s.lights),
    )
}

/// The steps of a calibration run: the masters to stack, each type and
/// signature once, then the light frames of every session that has any.
pub open spec fn planned_items(ss: Seq<SessionView>) -> Seq<CalibrationWorkItem> {
    first_jobs(all_jobs(ss)).map_values(
        |j: MasterJob|
            CalibrationWorkItem {
                session_index: j.session_index as usize,
                task: CalibrationWorkItemTask::Master(j.master_type),
            },
    ) + light_sessions(ss).map_values(
        |i: int| CalibrationWorkItem { session_index: i as usize, task: CalibrationWorkItemTask::CalibrateLights },
    )
}

/// The progress steps of a calibration run, one per planned item.
pub open spec fn planned_steps(ss: Seq<SessionView>) -> Seq<StepView> {
    first_jobs(all_jobs(ss)).map_values(|j: MasterJob| master_step(ss, j)) + light_sessions(
        ss,
    ).map_values(|i: int| light_step(ss, i))
}

/// The work item that stacks the master `j`.
pub open spec fn master_item(j: MasterJob) -> CalibrationWorkItem {
    CalibrationWorkItem {
        session_index: j.session_index as usize,
        task: CalibrationWorkItemTask::Master(j.master_type),
    }
}

/// The work item that calibrates the light frames of session `i`.
pub open spec fn light_item(i: int) -> CalibrationWorkItem {
    CalibrationWorkItem { session_index: i as usize, task: CalibrationWorkItemTask::CalibrateLights }
}

spec fn plan_matches(
    fj: Seq<MasterJob>,
    ss: Seq<SessionView>,
    seen: Seq<(MasterType, u64)>,
    items: Seq<CalibrationWorkItem>,
    steps: Seq<StepView>,
) -> bool {
    &&& seen.len() == fj.len()
    &&& items.len() == fj.len()
    &&& steps.len() == fj.len()
    &&& forall|k: int|
        0 <= k < fj.len() ==> (#[trigger] seen[k]).0 == fj[k].master_type && seen[k].1
            == fj[k].signature
    &&& forall|k: int| 0 <= k < fj.len() ==> #[trigger] items[k] == master_item(fj[k])
    &&& forall|k: int| 0 <= k < fj.len() ==> #[trigger] steps[k] == master_step(ss, fj[k])
}

proof fn lemma_first_jobs_append(js: Seq<MasterJob>, more: Seq<MasterJob>)
    requires
        more.len() <= 1,
    ensures
        first_jobs(js + more) == if more.len() == 0 {
            first_jobs(js)
        } else if job_seen(first_jobs(js), more[0]) {
            first_jobs(js)
        } else {
            first_jobs(js).push(more[0])
        },
{
    if more.len() == 0 {
        assert(js + more =~= js);
    } else {
        assert((js + more).drop_last() =~= js);
        assert((js + more).last() == more[0]);
    }
}

fn slot_ref(session: &AstroSession, t: MasterType) -> (r: &MasterOrFrames)
    ensures
        r@ == slot_of_type(session@, t),
{
    match t {
        MasterType::Dark => &session.darks,
        MasterType::Flat => &session.flats,
        MasterType::Bias => &session.biases,
    }
}

fn step_id(session: &AstroSession, kind: CalibrationStepKind) -> (r: String)
    ensures
        r@ == session@.uuid + ":"@ + kind_name(kind),
{
    let mut s = session.uuid.clone();
    append_text(&mut s, ":");
    append_text(&mut s, kind_name_text(kind));
    s
}

fn make_step(id: String, kind: CalibrationStepKind, session: &AstroSession, count: usize, skipped: usize) -> (r:
    CalibrationProgressStep)
    ensures
        r@ == pending_step(id@, kind, session@, count as nat, skipped as nat),
{
    CalibrationProgressStep {
        id,
        kind,
        label: text_of(kind_label(&kind)),
        session_uuid: session.uuid.clone(),
        session_label: session_label(session),
        count,
        completed_count: 0,
        skipped_count: skipped,
        rejected_count: 0,
        status: CalibrationStepStatus::Pending,
        started_at: None,
        ended_at: None,
        error: None,
    }
}

fn consider_master(
    session: &AstroSession,
    i: usize,
    t: MasterType,
    Ghost(ss): Ghost<Seq<SessionView>>,
    Ghost(js): Ghost<Seq<MasterJob>>,
    seen: &mut Vec<(MasterType, u64)>,
    items: &mut Vec<CalibrationWorkItem>,
    steps: &mut Vec<CalibrationProgressStep>,
)
    requires
        i < ss.len(),
        ss[i as int] == session@,
        plan_matches(first_jobs(js), ss, old(seen)@, old(items)@, step_views(old(steps)@)),
    ensures
        plan_matches(
            first_jobs(js + job_for(ss[i as int], i as int, t)),
            ss,
            final(seen)@,
            final(items)@,
            step_views(final(steps)@),
        ),
{
    let ghost more = job_for(ss[i as int], i as int, t);
    proof {
        lemma_first_jobs_append(js, more);
    }
    let frames = match slot_ref(session, t) {
        MasterOrFrames::Frames(frames) => frames,
        MasterOrFrames::Master(_) => {
            return;
        },
    };
    if frames.len() == 0 {
        return;
    }
    let signature = frames_signature(frames);
    let ghost job = more[0];
    let ghost fj = first_jobs(js);
    let mut k: usize = 0;
    while k < seen.len()
        invariant
            k <= seen.len(),
            plan_matches(fj, ss, seen@, items@, step_views(steps@)),
            job.master_type == t && job.signature == signature,
            fj == first_jobs(js),
            more == job_for(ss[i as int], i as int, t),
            more.len() == 1,
            more[0] == job,
            first_jobs(js + more) == if job_seen(fj, job) {
                fj
            } else {
                fj.push(job)
            },
            forall|m: int|
                0 <= m < k ==> !((#[trigger] fj[m]).master_type == t && fj[m].signature == signature),
        decreases seen.len() - k,
    {
        let (kt, ks) = seen[k];
        if kt == t && ks == signature {
            assert(fj[k as int].master_type == t && fj[k as int].signature == signature);
            assert(job_seen(fj, job));
            return;
        }
        k = k + 1;
    }
    assert(!job_seen(fj, job));
    let kind = master_type_to_step_kind(t);
    seen.push((t, signature));
    items.push(CalibrationWorkItem { session_index: i, task: CalibrationWorkItemTask::Master(t) });
    let id = step_id(session, kind);
    let step = make_step(id, kind, session, frames.len(), 0);
    let ghost old_steps = steps@;
    steps.push(step);
    assert(step_views(steps@) =~= step_views(old_steps).push(step@));
    assert(step@ == master_step(ss, job));
}

fn count_calibrated(lights: &Vec<File>) -> (r: usize)
    ensures
        r as nat == calibrated_count(file_views(lights@)),
{
    let mut n: usize = 0;
    let mut k: usize = 0;
    while k < lights.len()
        invariant
            k <= lights.len(),
            n <= k,
            n as nat == calibrated_count(file_views(lights@).take(k as int)),
        decreases lights.len() - k,
    {
        assert(file_views(lights@).take(k + 1).drop_last() =~= file_views(lights@).take(k as int));
        if lights[k].calibrated_frame.is_some() {
            n = n + 1;
        }
        k = k + 1;
    }
    assert(file_views(lights@).take(lights.len() as int) =~= file_views(lights@));
    n
}

/// The plan of a calibration run over the grouped sessions, and its first
/// progress report, stamped `started_at`: a run with nothing to do is reported
/// finished at once.
pub fn build_calibration_pipeline(sessions: &Vec<AstroSession>, started_at: u64) -> (r: (
    Vec<CalibrationWorkItem>,
    CalibrationProgressMessage,
))
    ensures
        r.0@ == planned_items(session_views(sessions@)),
        r.1@ == (ProgressView {
            started_at,
            finished_at: if planned_steps(session_views(sessions@)).len() == 0 {
                Some(started_at)
            } else {
                None
            },
            status: if planned_steps(session_views(sessions@)).len() == 0 {
                CalibrationRunStatus::Completed
            } else {
                CalibrationRunStatus::Running
            },
            current_step_id: None,
            steps: planned_steps(session_views(sessions@)),
        }),
{
    let ghost ss = session_views(sessions@);
    let mut seen: Vec<(MasterType, u64)> = Vec::new();
    let mut items: Vec<CalibrationWorkItem> = Vec::new();
    let mut steps: Vec<CalibrationProgressStep> = Vec::new();
    let mut i: usize = 0;
    assert(ss.take(0) =~= Seq::<SessionView>::empty());
    while i < sessions.len()
        invariant
            i <= sessions.len(),
            ss == session_views(sessions@),
            plan_matches(first_jobs(all_jobs(ss.take(i as int))), ss, seen@, items@, step_views(steps@)),
        decreases sessions.len() - i,
    {
        let session = &sessions[i];
        let ghost j0 = all_jobs(ss.take(i as int));
        let ghost s = ss[i as int];
        assert(ss.take(i + 1).drop_last() =~= ss.take(i as int));
        assert(ss.take(i + 1).last() == s);
        consider_master(session, i, MasterType::Dark, Ghost(ss), Ghost(j0), &mut seen, &mut items, &mut steps);
        let ghost j1 = j0 + job_for(s, i as int, MasterType::Dark);
        consider_master(session, i, MasterType::Flat, Ghost(ss), Ghost(j1), &mut seen, &mut items, &mut steps);
        let ghost j2 = j1 + job_for(s, i as int, MasterType::Flat);
        consider_master(session, i, MasterType::Bias, Ghost(ss), Ghost(j2), &mut seen, &mut items, &mut steps);
        assert(j2 + job_for(s, i as int, MasterType::Bias) =~= all_jobs(ss.take(i + 1)));
        i = i + 1;
    }
    assert(ss.take(sessions.len() as int) =~= ss);
    let ghost fj = first_jobs(all_jobs(ss));
    let ghost master_items = fj.map_values(|j: MasterJob| master_item(j));
    let ghost master_steps = fj.map_values(|j: MasterJob| master_step(ss, j));
    assert(items@ =~= master_items);
    assert(step_views(steps@) =~= master_steps);
    let mut i: usize = 0;
    assert(ss.take(0) =~= Seq::<SessionView>::empty());
    while i < sessions.len()
        invariant
            i <= sessions.len(),
            ss == session_views(sessions@),
            items@ =~= master_items + light_sessions(ss.take(i as int)).map_values(|k: int| light_item(k)),
            step_views(steps@) =~= master_steps + light_sessions(ss.take(i as int)).map_values(
                |k: int| light_step(ss, k),
            ),
        decreases sessions.len() - i,
    {
        let session = &sessions[i];
        assert(ss.take(i + 1).drop_last() =~= ss.take(i as int));
        assert(ss.take(i + 1).last() == ss[i as int]);
        assert(ss[i as int] == session@);
        if session.lights.len() > 0 {
            let kind = CalibrationStepKind::Light;
            items.push(CalibrationWorkItem { session_index: i, task: CalibrationWorkItemTask::CalibrateLights });
            let skipped = count_calibrated(&session.lights);
            let id = step_id(session, kind);
            let step = make_step(id, kind, session, session.lights.len(), skipped);
            let ghost old_steps = steps@;
            steps.push(step);
            assert(step_views(steps@) =~= step_views(old_steps).push(step@));
            assert(step@ == light_step(ss, i as int));
        }
        i = i + 1;
    }
    assert(ss.take(sessions.len() as int) =~= ss);
    let empty = steps.len() == 0;
    let progress = CalibrationProgressMessage {
        started_at,
        finished_at: if empty {
            Some(started_at)
        } else {
            None
        },
        status: if empty {
            CalibrationRunStatus::Completed
        } else {
            CalibrationRunStatus::Running
        },
        current_step_id: None,
        steps,
    };
    (items, progress)
}

/// No two masters in `js` share type and signature.
pub open spec fn jobs_distinct(js: Seq<MasterJob>) -> bool {
    forall|a: int, b: int|
        0 <= a < b < js.len() ==> !((#[trigger] js[a]).master_type == (#[trigger] js[b]).master_type
            && js[a].signature == js[b].signature)
}

/// Keeping the first master of each type and signature keeps them distinct,
/// keeps one of every type and signature asked for, and keeps only masters
/// that were asked for.
pub proof fn lemma_first_jobs(js: Seq<MasterJob>)
    ensures
        jobs_distinct(first_jobs(js)),
        forall|k: int| 0 <= k < js.len() ==> job_seen(first_jobs(js), #[trigger] js[k]),
        forall|k: int|
            0 <= k < first_jobs(js).len() ==> exists|m: int|
                0 <= m < js.len() && #[trigger] js[m] == #[trigger] first_jobs(js)[k],
    decreases js.len(),
{
    if js.len() > 0 {
        let front = js.drop_last();
        lemma_first_jobs(front);
        let prev = first_jobs(front);
        let x = js.last();
        let fj = first_jobs(js);
        assert forall|k: int| 0 <= k < js.len() implies job_seen(fj, #[trigger] js[k]) by {
            if k < front.len() {
                assert(js[k] == front[k]);
                assert(job_seen(prev, front[k]));
                let w = choose|w: int|
                    0 <= w < prev.len() && (#[trigger] prev[w]).master_type == front[k].master_type
                        && prev[w].signature == front[k].signature;
                assert(fj[w] == prev[w]);
            } else if !job_seen(prev, x) {
                assert(fj[prev.len() as int] == x);
            }
        }
        assert forall|k: int| 0 <= k < fj.len() implies exists|m: int|
            0 <= m < js.len() && #[trigger] js[m] == #[trigger] fj[k] by {
            if k < prev.len() {
                let m = choose|m: int| 0 <= m < front.len() && #[trigger] front[m] == #[trigger] prev[k];
                assert(js[m] == front[m]);
                assert(fj[k] == prev[k]);
            } else {
                assert(js[js.len() - 1] == fj[k]);
            }
        }
    }
}

/// A calibration run stacks each master once: the planned masters have
/// distinct types and signatures, every master a session needs stacked is
/// planned under its type and signature, and every planned master is one a
/// session needs.
pub proof fn lemma_masters_stacked_once(ss: Seq<SessionView>)
    ensures
        jobs_distinct(first_jobs(all_jobs(ss))),
        forall|k: int|
            0 <= k < all_jobs(ss).len() ==> job_seen(first_jobs(all_jobs(ss)), #[trigger] all_jobs(ss)[k]),
        forall|k: int|
            0 <= k < first_jobs(all_jobs(ss)).len() ==> exists|m: int|
                0 <= m < all_jobs(ss).len() && #[trigger] all_jobs(ss)[m] == #[trigger] first_jobs(
                    all_jobs(ss),
                )[k],
{
    lemma_first_jobs(all_jobs(ss));
}

} // verus!
