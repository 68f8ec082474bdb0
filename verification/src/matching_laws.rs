//! Which sessions a calibration frame fits, and where it is filed, stated
//! over the settings themselves: what each kind of frame must share with a
//! session, what is enough for it to fit, and that a frame never lands in a
//! session it does not fit, except the one under its own key.
use vstd::prelude::*;
use crate::grouping::{
    BucketView, MetadataView, SessionKind, bucket_push, bucket_takes, calibration_fits,
    has_master_match, insert_calibration, master_fits, master_session_key, session_key,
};
use crate::grouping_laws::lemma_key_position_props;
use crate::files::FileView;

verus! {

/// An ordinary calibration frame that fits a session shares its settings with
/// it: the camera the frame names is the session's; its gain is within a
/// hundredth of the session's, and the session has one; a dark (or a frame
/// filed as a light) also has the session's exposure and temperature, within
/// a hundredth; a flat (or a frame filed as a light) has the session's filter.
pub proof fn lemma_fitting_frame_shares_settings(kind: SessionKind, s: MetadataView, f: MetadataView)
    requires
        calibration_fits(kind, s, f),
    ensures
        f.camera is Some ==> s.camera == f.camera,
        f.gain matches Some(g) ==> (s.gain matches Some(x) && -10 <= x - g <= 10),
        kind == SessionKind::Dark || kind == SessionKind::Light ==> (f.exposure matches Some(e) ==> (
        s.exposure matches Some(x) && -10 <= x - e <= 10)),
        kind == SessionKind::Dark || kind == SessionKind::Light ==> (f.temperature matches Some(t) ==> (
        s.temperature matches Some(x) && -10 <= x - t <= 10)),
        kind == SessionKind::Flat || kind == SessionKind::Light ==> (f.filter is Some ==> s.filter
            == f.filter),
{
}

/// An ordinary calibration frame that shares those settings with a session
/// fits it; what the frame does not give, and every other setting (the night,
/// the telescope, and for each kind the settings it is not held to), plays no
/// part.
pub proof fn lemma_frame_sharing_settings_fits(kind: SessionKind, s: MetadataView, f: MetadataView)
    requires
        f.camera is Some ==> s.camera == f.camera,
        f.gain matches Some(g) ==> (s.gain matches Some(x) && -10 <= x - g <= 10),
        kind == SessionKind::Dark || kind == SessionKind::Light ==> (f.exposure matches Some(e) ==> (
        s.exposure matches Some(x) && -10 <= x - e <= 10)),
        kind == SessionKind::Dark || kind == SessionKind::Light ==> (f.temperature matches Some(t) ==> (
        s.temperature matches Some(x) && -10 <= x - t <= 10)),
        kind == SessionKind::Flat || kind == SessionKind::Light ==> (f.filter is Some ==> s.filter
            == f.filter),
    ensures
        calibration_fits(kind, s, f),
{
}

/// A dark needs the session's temperature: a dark taken at temperature `t`
/// does not fit a session without a temperature, nor one whose temperature is
/// more than a hundredth away from `t`.
pub proof fn lemma_dark_needs_session_temperature(s: MetadataView, f: MetadataView)
    requires
        f.temperature matches Some(t) && !(s.temperature matches Some(x) && -10 <= x - t <= 10),
    ensures
        !calibration_fits(SessionKind::Dark, s, f),
{
    if calibration_fits(SessionKind::Dark, s, f) {
        lemma_fitting_frame_shares_settings(SessionKind::Dark, s, f);
    }
}

/// A master frame that fits a session has the session's camera, telescope and
/// exposure (within a hundredth), and a master flat its filter too.
pub proof fn lemma_fitting_master_shares_settings(kind: SessionKind, s: MetadataView, f: MetadataView)
    requires
        master_fits(kind, s, f),
    ensures
        f.camera is Some ==> s.camera == f.camera,
        f.telescope is Some ==> s.telescope == f.telescope,
        f.exposure matches Some(e) ==> (s.exposure matches Some(x) && -10 <= x - e <= 10),
        kind == SessionKind::Flat ==> (f.filter is Some ==> s.filter == f.filter),
{
}

/// A master frame that shares those settings with a session fits it, whatever
/// its gain, temperature and night.
pub proof fn lemma_master_sharing_settings_fits(kind: SessionKind, s: MetadataView, f: MetadataView)
    requires
        f.camera is Some ==> s.camera == f.camera,
        f.telescope is Some ==> s.telescope == f.telescope,
        f.exposure matches Some(e) ==> (s.exposure matches Some(x) && -10 <= x - e <= 10),
        kind == SessionKind::Flat ==> (f.filter is Some ==> s.filter == f.filter),
    ensures
        master_fits(kind, s, f),
{
}

/// A session that takes a calibration frame shares the settings it is held
/// to: a master frame those of `lemma_fitting_master_shares_settings`, an
/// ordinary frame those of `lemma_fitting_frame_shares_settings`; its
/// camera always.
pub proof fn lemma_taking_session_shares_settings(b: BucketView, kind: SessionKind, is_master: bool, m: MetadataView)
    requires
        bucket_takes(b, kind, is_master, m),
    ensures
        m.camera is Some ==> b.match_data.camera == m.camera,
        is_master ==> (m.telescope is Some ==> b.match_data.telescope == m.telescope),
        is_master ==> (m.exposure matches Some(e) ==> (b.match_data.exposure matches Some(x) && -10 <= x
            - e <= 10)),
        is_master && kind == SessionKind::Flat ==> (m.filter is Some ==> b.match_data.filter == m.filter),
        !is_master ==> (m.gain matches Some(g) ==> (b.match_data.gain matches Some(x) && -10 <= x - g
            <= 10)),
        !is_master && (kind == SessionKind::Dark || kind == SessionKind::Light) ==> (m.exposure matches Some(
            e,
        ) ==> (b.match_data.exposure matches Some(x) && -10 <= x - e <= 10)),
        !is_master && (kind == SessionKind::Dark || kind == SessionKind::Light) ==> (m.temperature matches Some(
            t,
        ) ==> (b.match_data.temperature matches Some(x) && -10 <= x - t <= 10)),
        !is_master && (kind == SessionKind::Flat || kind == SessionKind::Light) ==> (m.filter is Some
            ==> b.match_data.filter == m.filter),
{
    if is_master {
        lemma_fitting_master_shares_settings(kind, b.match_data, m);
    } else {
        lemma_fitting_frame_shares_settings(kind, b.match_data, m);
    }
}

/// A session takes a master frame that shares its camera, telescope and
/// exposure (and, for a flat, its filter), and an ordinary frame that shares
/// the settings of `lemma_frame_sharing_settings_fits`.
pub proof fn lemma_session_sharing_settings_takes(b: BucketView, kind: SessionKind, is_master: bool, m: MetadataView)
    requires
        m.camera is Some ==> b.match_data.camera == m.camera,
        is_master ==> (m.telescope is Some ==> b.match_data.telescope == m.telescope),
        is_master ==> (m.exposure matches Some(e) ==> (b.match_data.exposure matches Some(x) && -10 <= x
            - e <= 10)),
        is_master && kind == SessionKind::Flat ==> (m.filter is Some ==> b.match_data.filter == m.filter),
        !is_master ==> (m.gain matches Some(g) ==> (b.match_data.gain matches Some(x) && -10 <= x - g
            <= 10)),
        !is_master && (kind == SessionKind::Dark || kind == SessionKind::Light) ==> (m.exposure matches Some(
            e,
        ) ==> (b.match_data.exposure matches Some(x) && -10 <= x - e <= 10)),
        !is_master && (kind == SessionKind::Dark || kind == SessionKind::Light) ==> (m.temperature matches Some(
            t,
        ) ==> (b.match_data.temperature matches Some(x) && -10 <= x - t <= 10)),
        !is_master && (kind == SessionKind::Flat || kind == SessionKind::Light) ==> (m.filter is Some
            ==> b.match_data.filter == m.filter),
    ensures
        bucket_takes(b, kind, is_master, m),
{
    if is_master {
        lemma_master_sharing_settings_fits(kind, b.match_data, m);
    } else {
        lemma_frame_sharing_settings_fits(kind, b.match_data, m);
    }
}

/// Whether the session holds the frame `f` where a frame of `kind` goes: a
/// master in the master slot of its kind, any other frame among the frames
/// of its kind.
pub open spec fn holds_frame(b: BucketView, kind: SessionKind, is_master: bool, f: FileView) -> bool {
    match kind {
        SessionKind::Light => b.lights.contains(f),
        SessionKind::Dark => if is_master {
            b.master_dark == Some(f)
        } else {
            b.darks.contains(f)
        },
        SessionKind::Flat => if is_master {
            b.master_flat == Some(f)
        } else {
            b.flats.contains(f)
        },
        SessionKind::Bias => if is_master {
            b.master_bias == Some(f)
        } else {
            b.biases.contains(f)
        },
    }
}

/// Whether some session holds a master of `kind` that the frame `m` fits.
pub open spec fn fitting_master_held(bs: Seq<BucketView>, kind: SessionKind, m: MetadataView) -> bool {
    exists|i: int| 0 <= i < bs.len() && #[trigger] has_master_match(bs[i], kind, m)
}

/// The key of the session a calibration frame forms when no session takes it.
pub open spec fn own_key(kind: SessionKind, is_master: bool, m: MetadataView) -> Seq<char> {
    if is_master {
        master_session_key(kind, m)
    } else {
        session_key(kind, m)
    }
}

/// Filing a calibration frame keeps every session there was, in place; a
/// session the frame does not fit, and that is not under the frame's own key,
/// is left as it was; and, unless an ordinary frame is dropped for a fitting
/// master of its kind, every session the frame fits receives it.
pub proof fn lemma_filed_only_where_it_fits(
    bs: Seq<BucketView>,
    kind: SessionKind,
    is_master: bool,
    m: MetadataView,
    f: FileView,
    j: int,
)
    requires
        0 <= j < bs.len(),
    ensures
        insert_calibration(bs, kind, is_master, m, f).len() >= bs.len(),
        !bucket_takes(bs[j], kind, is_master, m) && bs[j].key != own_key(kind, is_master, m)
            ==> insert_calibration(bs, kind, is_master, m, f)[j] == bs[j],
        bucket_takes(bs[j], kind, is_master, m) && (is_master || !exists|i: int|
            0 <= i < bs.len() && #[trigger] has_master_match(bs[i], kind, m)) ==> insert_calibration(
            bs,
            kind,
            is_master,
            m,
            f,
        )[j] == bucket_push(bs[j], kind, is_master, f),
{
    let key = own_key(kind, is_master, m);
    lemma_key_position_props(bs, key);
}

/// An ordinary frame is dropped, and nothing changes, when some session holds
/// a master of its kind that it fits. Otherwise the frame is never lost: some
/// session holds it afterwards where frames of its kind go, and so does every
/// session that takes it.
pub proof fn lemma_filed_frame_is_held(
    bs: Seq<BucketView>,
    kind: SessionKind,
    is_master: bool,
    m: MetadataView,
    f: FileView,
)
    ensures
        !is_master && fitting_master_held(bs, kind, m) ==> insert_calibration(bs, kind, is_master, m, f)
            == bs,
        is_master || !fitting_master_held(bs, kind, m) ==> exists|k: int|
            0 <= k < insert_calibration(bs, kind, is_master, m, f).len() && #[trigger] holds_frame(
                insert_calibration(bs, kind, is_master, m, f)[k],
                kind,
                is_master,
                f,
            ),
        is_master || !fitting_master_held(bs, kind, m) ==> forall|j: int|
            0 <= j < bs.len() && #[trigger] bucket_takes(bs[j], kind, is_master, m) ==> holds_frame(
                insert_calibration(bs, kind, is_master, m, f)[j],
                kind,
                is_master,
                f,
            ),
{
    let r = insert_calibration(bs, kind, is_master, m, f);
    let key = own_key(kind, is_master, m);
    lemma_key_position_props(bs, key);
    if is_master || !fitting_master_held(bs, kind, m) {
        assert forall|j: int|
            0 <= j < bs.len() && #[trigger] bucket_takes(bs[j], kind, is_master, m) implies holds_frame(
            r[j],
            kind,
            is_master,
            f,
        ) by {
            lemma_push_holds(bs[j], kind, is_master, f);
        }
        if exists|j: int| 0 <= j < bs.len() && #[trigger] bucket_takes(bs[j], kind, is_master, m) {
            let j = choose|j: int| 0 <= j < bs.len() && #[trigger] bucket_takes(bs[j], kind, is_master, m);
            assert(holds_frame(r[j], kind, is_master, f));
        } else {
            let p = crate::grouping::key_position(bs, key);
            if p >= 0 {
                lemma_push_holds(bs[p], kind, is_master, f);
                assert(holds_frame(r[p], kind, is_master, f));
            } else {
                let nb = crate::grouping::new_bucket(key, m);
                lemma_push_holds(nb, kind, is_master, f);
                assert(r[bs.len() as int] == bucket_push(nb, kind, is_master, f));
                assert(holds_frame(r[bs.len() as int], kind, is_master, f));
            }
        }
    }
}

proof fn lemma_push_holds(b: BucketView, kind: SessionKind, is_master: bool, f: FileView)
    ensures
        holds_frame(bucket_push(b, kind, is_master, f), kind, is_master, f),
{
    let r = bucket_push(b, kind, is_master, f);
    match kind {
        SessionKind::Light => assert(r.lights[b.lights.len() as int] == f),
        SessionKind::Dark => if !is_master {
            assert(r.darks[b.darks.len() as int] == f);
        },
        SessionKind::Flat => if !is_master {
            assert(r.flats[b.flats.len() as int] == f);
        },
        SessionKind::Bias => if !is_master {
            assert(r.biases[b.biases.len() as int] == f);
        },
    }
}

/// An ordinary dark frame taken at temperature `t` is never filed into a
/// session whose temperature is missing or more than a hundredth away from
/// `t`, unless that session is the one under the dark's own key.
pub proof fn lemma_dark_not_filed_at_other_temperature(
    bs: Seq<BucketView>,
    m: MetadataView,
    f: FileView,
    j: int,
)
    requires
        0 <= j < bs.len(),
        m.temperature matches Some(t) && !(bs[j].match_data.temperature matches Some(x) && -10 <= x - t
            <= 10),
        bs[j].key != session_key(SessionKind::Dark, m),
    ensures
        insert_calibration(bs, SessionKind::Dark, false, m, f)[j] == bs[j],
        insert_calibration(bs, SessionKind::Dark, false, m, f)[j].darks == bs[j].darks,
{
    lemma_dark_needs_session_temperature(bs[j].match_data, m);
    lemma_filed_only_where_it_fits(bs, SessionKind::Dark, false, m, f, j);
}

} // verus!
