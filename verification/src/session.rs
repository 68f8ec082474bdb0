//! Sessions: the groups of frames taken with the same equipment and settings,
//! and the whole state the front end works on.
use vstd::prelude::*;
use crate::files::{File, FileView, copy_opt_text, duplicate_files, file_views, opt_text};

verus! {

/// What identifies a session to the user. Exposure, gain and temperature are
/// held in thousandths of the header's unit.
#[derive(Debug, Clone)]
pub struct SessionFingerprint {
    pub name: String,
    pub camera: String,
    pub filter: String,
    pub exposure: i64,
    pub gain: i64,
    pub temperature: i64,
}

#[verifier::ext_equal]
pub struct FingerprintView {
    pub name: Seq<char>,
    pub camera: Seq<char>,
    pub filter: Seq<char>,
    pub exposure: i64,
    pub gain: i64,
    pub temperature: i64,
}

impl View for SessionFingerprint {
    type V = FingerprintView;

    open spec fn view(&self) -> FingerprintView {
        FingerprintView {
            name: self.name@,
            camera: self.camera@,
            filter: self.filter@,
            exposure: self.exposure,
            gain: self.gain,
            temperature: self.temperature,
        }
    }
}

impl SessionFingerprint {
    pub fn duplicate(&self) -> (r: SessionFingerprint)
        ensures
            r@ == self@,
    {
        SessionFingerprint {
            name: self.name.clone(),
            camera: self.camera.clone(),
            filter: self.filter.clone(),
            exposure: self.exposure,
            gain: self.gain,
            temperature: self.temperature,
        }
    }
}

/// A session's calibration frames of one kind: either a master frame or the
/// frames a master is yet to be stacked from.
#[derive(Debug, Clone)]
pub enum MasterOrFrames {
    Master(File),
    Frames(Vec<File>),
}

#[verifier::ext_equal]
pub enum SlotView {
    Master(FileView),
    Frames(Seq<FileView>),
}

impl View for MasterOrFrames {
    type V = SlotView;

    open spec fn view(&self) -> SlotView {
        match self {
            MasterOrFrames::Master(f) => SlotView::Master(f@),
            MasterOrFrames::Frames(v) => SlotView::Frames(file_views(v@)),
        }
    }
}

impl MasterOrFrames {
    pub fn duplicate(&self) -> (r: MasterOrFrames)
        ensures
            r@ == self@,
    {
        match self {
            MasterOrFrames::Master(f) => MasterOrFrames::Master(f.duplicate()),
            MasterOrFrames::Frames(v) => MasterOrFrames::Frames(duplicate_files(v)),
        }
    }
}

/// A session: its light frames and the calibration frames that go with them.
#[derive(Debug, Clone)]
pub struct AstroSession {
    pub uuid: String,
    pub fingerprint: SessionFingerprint,
    pub lights: Vec<File>,
    pub darks: MasterOrFrames,
    pub flats: MasterOrFrames,
    pub biases: MasterOrFrames,
    /// The master frames calibration settled on, once it did.
    pub master_dark: Option<String>,
    pub master_flat: Option<String>,
    pub master_bias: Option<String>,
}

#[verifier::ext_equal]
pub struct SessionView {
    pub uuid: Seq<char>,
    pub fingerprint: FingerprintView,
    pub lights: Seq<FileView>,
    pub darks: SlotView,
    pub flats: SlotView,
    pub biases: SlotView,
    pub master_dark: Option<Seq<char>>,
    pub master_flat: Option<Seq<char>>,
    pub master_bias: Option<Seq<char>>,
}

impl View for AstroSession {
    type V = SessionView;

    open spec fn view(&self) -> SessionView {
        SessionView {
            uuid: self.uuid@,
            fingerprint: self.fingerprint@,
            lights: file_views(self.lights@),
            darks: self.darks@,
            flats: self.flats@,
            biases: self.biases@,
            master_dark: opt_text(self.master_dark),
            master_flat: opt_text(self.master_flat),
            master_bias: opt_text(self.master_bias),
        }
    }
}

/// A session with an empty identity and fingerprint, no frames and no masters.
pub open spec fn blank_session() -> SessionView {
    SessionView {
        uuid: Seq::empty(),
        fingerprint: FingerprintView {
            name: Seq::empty(),
            camera: Seq::empty(),
            filter: Seq::empty(),
            exposure: 0,
            gain: 0,
            temperature: 0,
        },
        lights: Seq::empty(),
        darks: SlotView::Frames(Seq::empty()),
        flats: SlotView::Frames(Seq::empty()),
        biases: SlotView::Frames(Seq::empty()),
        master_dark: None,
        master_flat: None,
        master_bias: None,
    }
}

/// The values of a sequence of sessions.
pub open spec fn session_views(s: Seq<AstroSession>) -> Seq<SessionView> {
    s.map_values(|x: AstroSession| x@)
}

impl AstroSession {
    pub fn duplicate(&self) -> (r: AstroSession)
        ensures
            r@ == self@,
    {
        AstroSession {
            uuid: self.uuid.clone(),
            fingerprint: self.fingerprint.duplicate(),
            lights: duplicate_files(&self.lights),
            darks: self.darks.duplicate(),
            flats: self.flats.duplicate(),
            biases: self.biases.duplicate(),
            master_dark: copy_opt_text(&self.master_dark),
            master_flat: copy_opt_text(&self.master_flat),
            master_bias: copy_opt_text(&self.master_bias),
        }
    }
}

/// The frames picked for one night, under the night's name.
#[derive(Debug, Clone)]
pub struct RawNight {
    pub name: String,
    pub files: Vec<File>,
}

#[verifier::ext_equal]
pub struct NightView {
    pub name: Seq<char>,
    pub files: Seq<FileView>,
}

impl View for RawNight {
    type V = NightView;

    open spec fn view(&self) -> NightView {
        NightView { name: self.name@, files: file_views(self.files@) }
    }
}

/// A night with an empty name and no frames.
pub open spec fn blank_night() -> NightView {
    NightView { name: Seq::empty(), files: Seq::empty() }
}

/// The values of a sequence of nights.
pub open spec fn night_views(s: Seq<RawNight>) -> Seq<NightView> {
    s.map_values(|x: RawNight| x@)
}

/// No two of the nights share a name: each night is found by its name alone.
pub open spec fn night_names_distinct(ns: Seq<NightView>) -> bool {
    forall|i: int, j: int| 0 <= i < j < ns.len() ==> #[trigger] ns[i].name != #[trigger] ns[j].name
}

/// The nights `b` have the names of the nights `a`, in the same order.
pub open spec fn same_night_names(a: Seq<NightView>, b: Seq<NightView>) -> bool {
    &&& a.len() == b.len()
    &&& forall|i: int| 0 <= i < a.len() ==> #[trigger] b[i].name == a[i].name
}

/// Nights that keep the names of nights with distinct names have distinct names.
pub proof fn lemma_same_names_stay_distinct(a: Seq<NightView>, b: Seq<NightView>)
    requires
        same_night_names(a, b),
        night_names_distinct(a),
    ensures
        night_names_distinct(b),
{
    assert forall|i: int, j: int| 0 <= i < j < b.len() implies #[trigger] b[i].name != #[trigger] b[j].name by {
        assert(b[i].name == a[i].name && b[j].name == a[j].name);
    }
}

/// Everything the front end shows: the picked nights, the sessions grouped from
/// them, the session in view and the frame in preview.
#[derive(Debug, Clone)]
pub struct FeState {
    pub raw_nights: Vec<RawNight>,
    pub grouped_nights: Vec<AstroSession>,
    pub active_grouped_session_uuid: Option<String>,
    pub current_preview_file: Option<String>,
}

#[verifier::ext_equal]
pub struct FeStateView {
    pub raw_nights: Seq<NightView>,
    pub grouped_nights: Seq<SessionView>,
    pub active_grouped_session_uuid: Option<Seq<char>>,
    pub current_preview_file: Option<Seq<char>>,
}

impl View for FeState {
    type V = FeStateView;

    open spec fn view(&self) -> FeStateView {
        FeStateView {
            raw_nights: night_views(self.raw_nights@),
            grouped_nights: session_views(self.grouped_nights@),
            active_grouped_session_uuid: opt_text(self.active_grouped_session_uuid),
            current_preview_file: opt_text(self.current_preview_file),
        }
    }
}

} // verus!
