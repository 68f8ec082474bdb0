//! Batches of file moves and deletions: checking a request, the progress a
//! batch reports, and dropping the files that went away from the front-end
//! state.
use vstd::prelude::*;
use crate::files::{File, FileView, file_views, opt_text};
use crate::progress::{
    FileBatchOperationKind, FileBatchOperationProgressMessage, FileBatchOperationRequest,
    FileBatchOperationStatus,
};
use crate::session::{
    AstroSession, FeState, FeStateView, NightView, RawNight, SessionView, night_names_distinct, night_views,
    session_views,
};
use crate::session_order::text_views;
use crate::text::{append_text, text_equal, text_of};

verus! {

// ---------------------------------------------------------------------
// What stays after a batch
// ---------------------------------------------------------------------

/// The frames whose path is not among `removed`, in order.
pub open spec fn kept_files(fs: Seq<FileView>, removed: Seq<Seq<char>>) -> Seq<FileView>
    decreases fs.len(),
{
    if fs.len() == 0 {
        fs
    } else if removed.contains(fs.last().path) {
        kept_files(fs.drop_last(), removed)
    } else {
        kept_files(fs.drop_last(), removed).push(fs.last())
    }
}

/// The night without its removed frames.
pub open spec fn trimmed_night(n: NightView, removed: Seq<Seq<char>>) -> NightView {
    NightView { files: kept_files(n.files, removed), ..n }
}

/// The session without its removed light frames.
pub open spec fn trimmed_session(s: SessionView, removed: Seq<Seq<char>>) -> SessionView {
    SessionView { lights: kept_files(s.lights, removed), ..s }
}

/// The nights with their removed frames dropped, and the nights left without
/// frames dropped too, in order.
pub open spec fn kept_nights(ns: Seq<NightView>, removed: Seq<Seq<char>>) -> Seq<NightView>
    decreases ns.len(),
{
    if ns.len() == 0 {
        ns
    } else {
        let rest = kept_nights(ns.drop_last(), removed);
        let files = kept_files(ns.last().files, removed);
        if files.len() == 0 {
            rest
        } else {
            rest.push(trimmed_night(ns.last(), removed))
        }
    }
}

/// The sessions with their removed light frames dropped, and the sessions left
/// without light frames dropped too, in order.
pub open spec fn kept_sessions(ss: Seq<SessionView>, removed: Seq<Seq<char>>) -> Seq<SessionView>
    decreases ss.len(),
{
    if ss.len() == 0 {
        ss
    } else {
        let rest = kept_sessions(ss.drop_last(), removed);
        let lights = kept_files(ss.last().lights, removed);
        if lights.len() == 0 {
            rest
        } else {
            rest.push(trimmed_session(ss.last(), removed))
        }
    }
}

/// The frame in preview, unless it was removed.
pub open spec fn preview_after(p: Option<Seq<char>>, removed: Seq<Seq<char>>) -> Option<Seq<char>> {
    match p {
        Some(q) => if removed.contains(q) {
            None
        } else {
            p
        },
        None => None,
    }
}

/// The session in view: none when no session is left, the same one while it
/// is still there, and otherwise the first session.
pub open spec fn active_after(active: Option<Seq<char>>, ss: Seq<SessionView>) -> Option<Seq<char>> {
    if ss.len() == 0 {
        None
    } else if exists|i: int| 0 <= i < ss.len() && active == Some(#[trigger] ss[i].uuid) {
        active
    } else {
        Some(ss[0].uuid)
    }
}

/// The front-end state once the files at `removed` are gone. An empty list
/// changes nothing.
pub open spec fn state_without(s: FeStateView, removed: Seq<Seq<char>>) -> FeStateView {
    if removed.len() == 0 {
        s
    } else {
        let ss = kept_sessions(s.grouped_nights, removed);
        FeStateView {
            raw_nights: kept_nights(s.raw_nights, removed),
            grouped_nights: ss,
            active_grouped_session_uuid: active_after(s.active_grouped_session_uuid, ss),
            current_preview_file: preview_after(s.current_preview_file, removed),
        }
    }
}

/// Whether `p` is among `paths`.
fn path_listed(paths: &Vec<String>, p: &str) -> (r: bool)
    ensures
        r == text_views(paths@).contains(p@),
{
    let ghost tv = text_views(paths@);
    let mut k: usize = 0;
    while k < paths.len()
        invariant
            k <= paths.len(),
            tv == text_views(paths@),
            tv.len() == paths.len(),
            forall|j: int| 0 <= j < k ==> tv[j] != p@,
        decreases paths.len() - k,
    {
        if text_equal(paths[k].as_str(), p) {
            assert(tv[k as int] == p@);
            return true;
        }
        k = k + 1;
    }
    false
}

/// The frames whose path is not among `removed`.
fn kept_file_list(files: &Vec<File>, removed: &Vec<String>) -> (r: Vec<File>)
    ensures
        file_views(r@) == kept_files(file_views(files@), text_views(removed@)),
{
    let ghost fs = file_views(files@);
    let mut r: Vec<File> = Vec::new();
    let mut k: usize = 0;
    while k < files.len()
        invariant
            k <= files.len(),
            fs == file_views(files@),
            file_views(r@) == kept_files(fs.take(k as int), text_views(removed@)),
        decreases files.len() - k,
    {
        assert(fs.take(k + 1).drop_last() =~= fs.take(k as int));
        assert(fs.take(k + 1).last() == files@[k as int]@);
        if !path_listed(removed, files[k].path.as_str()) {
            let ghost before = r@;
            r.push(files[k].duplicate());
            assert(file_views(r@) =~= file_views(before).push(files@[k as int]@));
        }
        k = k + 1;
    }
    assert(fs.take(files.len() as int) =~= fs);
    r
}

/// The nights with their removed frames, and the nights left empty, dropped.
fn kept_night_list(nights: &Vec<RawNight>, removed: &Vec<String>) -> (r: Vec<RawNight>)
    ensures
        night_views(r@) == kept_nights(night_views(nights@), text_views(removed@)),
{
    let ghost ns = night_views(nights@);
    let mut r: Vec<RawNight> = Vec::new();
    let mut k: usize = 0;
    while k < nights.len()
        invariant
            k <= nights.len(),
            ns == night_views(nights@),
            night_views(r@) == kept_nights(ns.take(k as int), text_views(removed@)),
        decreases nights.len() - k,
    {
        assert(ns.take(k + 1).drop_last() =~= ns.take(k as int));
        assert(ns.take(k + 1).last() == nights@[k as int]@);
        let files = kept_file_list(&nights[k].files, removed);
        if files.len() > 0 {
            let ghost before = r@;
            let night = RawNight { name: nights[k].name.clone(), files };
            assert(night@ == trimmed_night(nights@[k as int]@, text_views(removed@)));
            r.push(night);
            assert(night_views(r@) =~= night_views(before).push(night@));
        }
        k = k + 1;
    }
    assert(ns.take(nights.len() as int) =~= ns);
    r
}

/// The sessions with their removed light frames, and the sessions left
/// without light frames, dropped.
fn kept_session_list(sessions: &Vec<AstroSession>, removed: &Vec<String>) -> (r: Vec<AstroSession>)
    ensures
        session_views(r@) == kept_sessions(session_views(sessions@), text_views(removed@)),
{
    let ghost ss = session_views(sessions@);
    let mut r: Vec<AstroSession> = Vec::new();
    let mut k: usize = 0;
    while k < sessions.len()
        invariant
            k <= sessions.len(),
            ss == session_views(sessions@),
            session_views(r@) == kept_sessions(ss.take(k as int), text_views(removed@)),
        decreases sessions.len() - k,
    {
        assert(ss.take(k + 1).drop_last() =~= ss.take(k as int));
        assert(ss.take(k + 1).last() == sessions@[k as int]@);
        let lights = kept_file_list(&sessions[k].lights, removed);
        if lights.len() > 0 {
            let ghost before = r@;
            let mut session = sessions[k].duplicate();
            session.lights = lights;
            assert(session@ == trimmed_session(sessions@[k as int]@, text_views(removed@)));
            r.push(session);
            assert(session_views(r@) =~= session_views(before).push(session@));
        }
        k = k + 1;
    }
    assert(ss.take(sessions.len() as int) =~= ss);
    r
}

/// Whether one of the sessions has this uuid.
fn has_session_with_uuid(sessions: &Vec<AstroSession>, uuid: &str) -> (r: bool)
    ensures
        r == exists|i: int| 0 <= i < sessions@.len() && Some(uuid@) == Some(#[trigger] session_views(sessions@)[i].uuid),
{
    let ghost ss = session_views(sessions@);
    let mut k: usize = 0;
    while k < sessions.len()
        invariant
            k <= sessions.len(),
            ss == session_views(sessions@),
            forall|j: int| 0 <= j < k ==> Some(uuid@) != Some(#[trigger] ss[j].uuid),
        decreases sessions.len() - k,
    {
        if text_equal(sessions[k].uuid.as_str(), uuid) {
            assert(Some(uuid@) == Some(ss[k as int].uuid));
            return true;
        }
        k = k + 1;
    }
    false
}

/// Drops the files at `removed_paths` from the front-end state: from every
/// night and session, then the nights and sessions left empty, the frame in
/// preview if it went, and settles the session in view.
pub fn remove_paths_from_fe_state(fe_state: &mut FeState, removed_paths: &Vec<String>)
    ensures
        final(fe_state)@ == state_without(old(fe_state)@, text_views(removed_paths@)),
        night_names_distinct(old(fe_state)@.raw_nights) ==> night_names_distinct(
            final(fe_state)@.raw_nights,
        ),
{
    let ghost removed = text_views(removed_paths@);
    let ghost s0 = fe_state@;
    proof {
        if night_names_distinct(s0.raw_nights) {
            lemma_kept_nights_distinct(s0.raw_nights, removed);
        }
    }
    assert(removed.len() == removed_paths@.len());
    if removed_paths.len() == 0 {
        return;
    }
    let nights = kept_night_list(&fe_state.raw_nights, removed_paths);
    let sessions = kept_session_list(&fe_state.grouped_nights, removed_paths);
    fe_state.raw_nights = nights;
    fe_state.grouped_nights = sessions;
    let drop_preview = match &fe_state.current_preview_file {
        Some(p) => path_listed(removed_paths, p.as_str()),
        None => false,
    };
    if drop_preview {
        fe_state.current_preview_file = None;
    }
    assert(fe_state@.current_preview_file == preview_after(s0.current_preview_file, removed));
    if fe_state.grouped_nights.len() == 0 {
        fe_state.active_grouped_session_uuid = None;
        assert(fe_state@ =~= state_without(s0, removed));
        return;
    }
    let still_exists = match &fe_state.active_grouped_session_uuid {
        Some(u) => has_session_with_uuid(&fe_state.grouped_nights, u.as_str()),
        None => false,
    };
    if !still_exists {
        fe_state.active_grouped_session_uuid = Some(fe_state.grouped_nights[0].uuid.clone());
    }
    assert(fe_state@ =~= state_without(s0, removed));
}

// ---------------------------------------------------------------------
// Laws of removal
// ---------------------------------------------------------------------

/// A frame stays exactly when it was there and its path was not removed.
pub proof fn lemma_kept_files(fs: Seq<FileView>, removed: Seq<Seq<char>>)
    ensures
        forall|j: int|
            0 <= j < kept_files(fs, removed).len() ==> !removed.contains(
                #[trigger] kept_files(fs, removed)[j].path,
            ) && fs.contains(kept_files(fs, removed)[j]),
        forall|i: int|
            0 <= i < fs.len() && !removed.contains(#[trigger] fs[i].path) ==> kept_files(
                fs,
                removed,
            ).contains(fs[i]),
    decreases fs.len(),
{
    if fs.len() > 0 {
        let rest = fs.drop_last();
        lemma_kept_files(rest, removed);
        let k = kept_files(fs, removed);
        let kr = kept_files(rest, removed);
        assert forall|j: int| 0 <= j < k.len() implies !removed.contains(#[trigger] k[j].path) && fs.contains(k[j]) by {
            if j < kr.len() {
                assert(k[j] == kr[j]);
                let m = choose|m: int| 0 <= m < rest.len() && rest[m] == kr[j];
                assert(fs[m] == kr[j]);
            } else {
                assert(k[j] == fs.last());
                assert(fs[fs.len() - 1] == fs.last());
            }
        }
        assert forall|i: int| 0 <= i < fs.len() && !removed.contains(#[trigger] fs[i].path) implies k.contains(fs[i]) by {
            if i < fs.len() - 1 {
                assert(rest[i] == fs[i]);
                assert(kr.contains(rest[i]));
                let m = choose|m: int| 0 <= m < kr.len() && kr[m] == rest[i];
                assert(k[m] == kr[m]);
            } else {
                assert(k[k.len() - 1] == fs.last());
            }
        }
    }
}

/// Every night left keeps its name and its frames that were not removed, and
/// has at least one; every night that had a frame not removed is left.
pub proof fn lemma_kept_nights(ns: Seq<NightView>, removed: Seq<Seq<char>>)
    ensures
        forall|i: int|
            0 <= i < kept_nights(ns, removed).len() ==> (#[trigger] kept_nights(ns, removed)[i]).files.len() > 0
                && exists|k: int|
                0 <= k < ns.len() && kept_nights(ns, removed)[i] == #[trigger] trimmed_night(ns[k], removed),
        forall|k: int|
            0 <= k < ns.len() && kept_files(#[trigger] ns[k].files, removed).len() > 0 ==> kept_nights(
                ns,
                removed,
            ).contains(trimmed_night(ns[k], removed)),
    decreases ns.len(),
{
    if ns.len() > 0 {
        let rest = ns.drop_last();
        lemma_kept_nights(rest, removed);
        let kn = kept_nights(ns, removed);
        let kr = kept_nights(rest, removed);
        let last = ns.last();
        assert(ns[ns.len() - 1] == last);
        assert forall|i: int| 0 <= i < kn.len() implies (#[trigger] kn[i]).files.len() > 0 && exists|k: int|
            0 <= k < ns.len() && kn[i] == #[trigger] trimmed_night(ns[k], removed) by {
            if i < kr.len() {
                assert(kn[i] == kr[i]);
                let k = choose|k: int|
                    0 <= k < rest.len() && kr[i] == #[trigger] trimmed_night(rest[k], removed);
                assert(rest[k] == ns[k]);
            } else {
                assert(kn[i] == trimmed_night(ns[ns.len() - 1], removed));
            }
        }
        assert forall|k: int| 0 <= k < ns.len() && kept_files(#[trigger] ns[k].files, removed).len() > 0 implies kn.contains(
            trimmed_night(ns[k], removed),
        ) by {
            if k < ns.len() - 1 {
                assert(rest[k] == ns[k]);
                assert(kept_files(rest[k].files, removed).len() > 0);
                let v = trimmed_night(ns[k], removed);
                assert(kr.contains(v));
                let m = choose|m: int| 0 <= m < kr.len() && kr[m] == v;
                assert(kn[m] == kr[m]);
            } else {
                assert(kn[kn.len() - 1] == trimmed_night(ns[k], removed));
            }
        }
    }
}

/// Removing frames keeps the names of the nights apart: nights with distinct
/// names are left with distinct names.
pub proof fn lemma_kept_nights_distinct(ns: Seq<NightView>, removed: Seq<Seq<char>>)
    requires
        night_names_distinct(ns),
    ensures
        night_names_distinct(kept_nights(ns, removed)),
    decreases ns.len(),
{
    if ns.len() > 0 {
        let rest = ns.drop_last();
        assert(night_names_distinct(rest)) by {
            assert forall|i: int, j: int| 0 <= i < j < rest.len() implies #[trigger] rest[i].name
                != #[trigger] rest[j].name by {
                assert(rest[i] == ns[i] && rest[j] == ns[j]);
            }
        }
        lemma_kept_nights_distinct(rest, removed);
        lemma_kept_nights(rest, removed);
        let kn = kept_nights(ns, removed);
        let kr = kept_nights(rest, removed);
        if kept_files(ns.last().files, removed).len() > 0 {
            assert forall|i: int, j: int| 0 <= i < j < kn.len() implies #[trigger] kn[i].name
                != #[trigger] kn[j].name by {
                if j < kr.len() {
                    assert(kn[i] == kr[i] && kn[j] == kr[j]);
                } else {
                    assert(kn[j] == trimmed_night(ns.last(), removed));
                    assert(kn[i] == kr[i]);
                    let k = choose|k: int|
                        0 <= k < rest.len() && kr[i] == #[trigger] trimmed_night(rest[k], removed);
                    assert(rest[k] == ns[k]);
                    assert(ns[ns.len() - 1] == ns.last());
                }
            }
        }
    }
}

/// Every session left keeps its fields but for the light frames, of which it
/// keeps those not removed, and has at least one; every session that had a
/// light frame not removed is left.
pub proof fn lemma_kept_sessions(ss: Seq<SessionView>, removed: Seq<Seq<char>>)
    ensures
        forall|i: int|
            0 <= i < kept_sessions(ss, removed).len() ==> (#[trigger] kept_sessions(ss, removed)[i]).lights.len() > 0
                && exists|k: int|
                0 <= k < ss.len() && kept_sessions(ss, removed)[i] == #[trigger] trimmed_session(ss[k], removed),
        forall|k: int|
            0 <= k < ss.len() && kept_files(#[trigger] ss[k].lights, removed).len() > 0 ==> kept_sessions(
                ss,
                removed,
            ).contains(trimmed_session(ss[k], removed)),
    decreases ss.len(),
{
    if ss.len() > 0 {
        let rest = ss.drop_last();
        lemma_kept_sessions(rest, removed);
        let kn = kept_sessions(ss, removed);
        let kr = kept_sessions(rest, removed);
        let last = ss.last();
        assert(ss[ss.len() - 1] == last);
        assert forall|i: int| 0 <= i < kn.len() implies (#[trigger] kn[i]).lights.len() > 0 && exists|k: int|
            0 <= k < ss.len() && kn[i] == #[trigger] trimmed_session(ss[k], removed) by {
            if i < kr.len() {
                assert(kn[i] == kr[i]);
                let k = choose|k: int|
                    0 <= k < rest.len() && kr[i] == #[trigger] trimmed_session(rest[k], removed);
                assert(rest[k] == ss[k]);
            } else {
                assert(kn[i] == trimmed_session(ss[ss.len() - 1], removed));
            }
        }
        assert forall|k: int| 0 <= k < ss.len() && kept_files(#[trigger] ss[k].lights, removed).len() > 0 implies kn.contains(
            trimmed_session(ss[k], removed),
        ) by {
            if k < ss.len() - 1 {
                assert(rest[k] == ss[k]);
                assert(kept_files(rest[k].lights, removed).len() > 0);
                let v = trimmed_session(ss[k], removed);
                assert(kr.contains(v));
                let m = choose|m: int| 0 <= m < kr.len() && kr[m] == v;
                assert(kn[m] == kr[m]);
            } else {
                assert(kn[kn.len() - 1] == trimmed_session(ss[k], removed));
            }
        }
    }
}

/// Once the files at `removed` are gone, no night, no session and no preview
/// refers to one of them.
pub proof fn lemma_removed_frames_are_gone(s: FeStateView, removed: Seq<Seq<char>>)
    ensures
        forall|i: int, j: int|
            0 <= i < state_without(s, removed).raw_nights.len() && 0 <= j
                < state_without(s, removed).raw_nights[i].files.len() ==> !removed.contains(
                #[trigger] state_without(s, removed).raw_nights[i].files[j].path,
            ),
        forall|i: int, j: int|
            0 <= i < state_without(s, removed).grouped_nights.len() && 0 <= j
                < state_without(s, removed).grouped_nights[i].lights.len() ==> !removed.contains(
                #[trigger] state_without(s, removed).grouped_nights[i].lights[j].path,
            ),
        (state_without(s, removed).current_preview_file matches Some(p) ==> !removed.contains(p)),
{
    let t = state_without(s, removed);
    if removed.len() > 0 {
        lemma_kept_nights(s.raw_nights, removed);
        lemma_kept_sessions(s.grouped_nights, removed);
        assert forall|i: int, j: int|
            0 <= i < t.raw_nights.len() && 0 <= j < t.raw_nights[i].files.len() implies !removed.contains(
                #[trigger] t.raw_nights[i].files[j].path,
            ) by {
            let k = choose|k: int|
                0 <= k < s.raw_nights.len() && t.raw_nights[i] == #[trigger] trimmed_night(s.raw_nights[k], removed);
            lemma_kept_files(s.raw_nights[k].files, removed);
        }
        assert forall|i: int, j: int|
            0 <= i < t.grouped_nights.len() && 0 <= j < t.grouped_nights[i].lights.len() implies !removed.contains(
                #[trigger] t.grouped_nights[i].lights[j].path,
            ) by {
            let k = choose|k: int|
                0 <= k < s.grouped_nights.len() && t.grouped_nights[i] == #[trigger] trimmed_session(s.grouped_nights[k], removed);
            lemma_kept_files(s.grouped_nights[k].lights, removed);
        }
    }
}

/// Once a non-empty list of files is gone, no night and no session is left
/// empty, and the session in view is none exactly when no session is left,
/// and otherwise one of the sessions left.
pub proof fn lemma_removal_leaves_no_empty_group(s: FeStateView, removed: Seq<Seq<char>>)
    requires
        removed.len() > 0,
    ensures
        forall|i: int|
            0 <= i < state_without(s, removed).raw_nights.len() ==> (#[trigger] state_without(
                s,
                removed,
            ).raw_nights[i]).files.len() > 0,
        forall|i: int|
            0 <= i < state_without(s, removed).grouped_nights.len() ==> (#[trigger] state_without(
                s,
                removed,
            ).grouped_nights[i]).lights.len() > 0,
        state_without(s, removed).active_grouped_session_uuid is None <==> state_without(
            s,
            removed,
        ).grouped_nights.len() == 0,
        (state_without(s, removed).active_grouped_session_uuid matches Some(u) ==> exists|i: int|
            0 <= i < state_without(s, removed).grouped_nights.len() && #[trigger] state_without(
                s,
                removed,
            ).grouped_nights[i].uuid == u),
{
    lemma_kept_nights(s.raw_nights, removed);
    lemma_kept_sessions(s.grouped_nights, removed);
    let t = state_without(s, removed);
    let ss = t.grouped_nights;
    if ss.len() > 0 {
        if exists|i: int| 0 <= i < ss.len() && s.active_grouped_session_uuid == Some(#[trigger] ss[i].uuid) {
            let i = choose|i: int| 0 <= i < ss.len() && s.active_grouped_session_uuid == Some(#[trigger] ss[i].uuid);
            assert(t.grouped_nights[i].uuid == t.active_grouped_session_uuid->0);
        } else {
            assert(t.grouped_nights[0].uuid == t.active_grouped_session_uuid->0);
        }
    }
}

// ---------------------------------------------------------------------
// Checking a request and reporting progress
// ---------------------------------------------------------------------

/// Refuses a batch with no files, and a move with no target directory.
pub fn validate_batch_request(request: &FileBatchOperationRequest) -> (r: Result<(), String>)
    ensures
        request.paths.len() == 0 ==> (r matches Err(e) && e@ == "No files selected"@),
        request.paths.len() > 0 && request.operation == FileBatchOperationKind::Move
            && request.target_directory is None ==> (r matches Err(e) && e@
            == "A target directory is required for move operations"@),
        request.paths.len() > 0 && !(request.operation == FileBatchOperationKind::Move
            && request.target_directory is None) ==> r is Ok,
{
    if request.paths.len() == 0 {
        return Err(text_of("No files selected"));
    }
    if request.operation == FileBatchOperationKind::Move && request.target_directory.is_none() {
        return Err(text_of("A target directory is required for move operations"));
    }
    Ok(())
}

/// The progress of a batch that has just started: running, nothing processed
/// out of all the request's files.
pub fn batch_started(request: &FileBatchOperationRequest, started_at: u64) -> (r: FileBatchOperationProgressMessage)
    ensures
        r.started_at == started_at,
        r.finished_at is None,
        r.status == FileBatchOperationStatus::Running,
        r.operation == request.operation,
        r.processed_count == 0,
        r.total_count == request.paths.len(),
        r.current_path is None,
        r.error is None,
{
    FileBatchOperationProgressMessage {
        started_at,
        finished_at: None,
        status: FileBatchOperationStatus::Running,
        operation: request.operation,
        processed_count: 0,
        total_count: request.paths.len(),
        current_path: None,
        error: None,
    }
}

/// The batch turns to the file at `path`.
pub fn batch_item_started(progress: &mut FileBatchOperationProgressMessage, path: &str)
    ensures
        opt_text(final(progress).current_path) == Some(path@),
        final(progress).started_at == old(progress).started_at,
        final(progress).finished_at == old(progress).finished_at,
        final(progress).status == old(progress).status,
        final(progress).operation == old(progress).operation,
        final(progress).processed_count == old(progress).processed_count,
        final(progress).total_count == old(progress).total_count,
        opt_text(final(progress).error) == opt_text(old(progress).error),
{
    progress.current_path = Some(text_of(path));
}

/// The batch is done with one more file.
pub fn batch_item_done(progress: &mut FileBatchOperationProgressMessage)
    requires
        old(progress).processed_count < usize::MAX,
    ensures
        final(progress).processed_count == old(progress).processed_count + 1,
        final(progress).started_at == old(progress).started_at,
        final(progress).finished_at == old(progress).finished_at,
        final(progress).status == old(progress).status,
        final(progress).operation == old(progress).operation,
        final(progress).total_count == old(progress).total_count,
        opt_text(final(progress).current_path) == opt_text(old(progress).current_path),
        opt_text(final(progress).error) == opt_text(old(progress).error),
{
    progress.processed_count = progress.processed_count + 1;
}

/// The batch stops on an error at `finished_at`.
pub fn batch_failed(progress: &mut FileBatchOperationProgressMessage, finished_at: u64, error: String)
    ensures
        final(progress).status == FileBatchOperationStatus::Failed,
        final(progress).finished_at == Some(finished_at),
        opt_text(final(progress).error) == Some(error@),
        final(progress).started_at == old(progress).started_at,
        final(progress).operation == old(progress).operation,
        final(progress).processed_count == old(progress).processed_count,
        final(progress).total_count == old(progress).total_count,
        opt_text(final(progress).current_path) == opt_text(old(progress).current_path),
{
    progress.status = FileBatchOperationStatus::Failed;
    progress.finished_at = Some(finished_at);
    progress.error = Some(error);
}

/// The batch went through all its files at `finished_at`.
pub fn batch_completed(progress: &mut FileBatchOperationProgressMessage, finished_at: u64)
    ensures
        final(progress).status == FileBatchOperationStatus::Completed,
        final(progress).finished_at == Some(finished_at),
        final(progress).current_path is None,
        final(progress).started_at == old(progress).started_at,
        final(progress).operation == old(progress).operation,
        final(progress).processed_count == old(progress).processed_count,
        final(progress).total_count == old(progress).total_count,
        opt_text(final(progress).error) == opt_text(old(progress).error),
{
    progress.status = FileBatchOperationStatus::Completed;
    progress.finished_at = Some(finished_at);
    progress.current_path = None;
}

/// The error of a batch whose source file went missing.
pub fn missing_source_error(path: &str) -> (r: String)
    ensures
        r@ == "Source file no longer exists: "@ + path@,
{
    let mut r = text_of("Source file no longer exists: ");
    append_text(&mut r, path);
    r
}

} // verus!
