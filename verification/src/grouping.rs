//! Grouping frames into sessions.
//!
//! Light frames that share night, camera, filter, telescope, exposure, gain
//! and temperature form one session. Calibration frames then join every
//! session whose settings they fit; a frame that fits none starts a session of
//! its own. A session that already holds a fitting master frame takes no
//! further frames of that kind.
//!
//! Exposure, gain and temperature are held in thousandths of the header's unit.
use vstd::prelude::*;
use vstd::pervasive::VecAdditionalExecFns;
use crate::files::{File, FileView, opt_text, copy_opt_text};
use crate::fits::FileType;
use crate::session::{
    AstroSession, FingerprintView, MasterOrFrames, SessionFingerprint, SessionView, SlotView,
};
use crate::grouping_laws::{lemma_grouped_lights, lemma_permuted_sessions, lights_filed, lights_traced, uuids_distinct};
use crate::session_order::{sessions_sorted, sort_sessions};
use crate::session::session_views;
use crate::text::{
    append_text, ascii_lowercase, is_ascii_text, lowercase_of, lowercase_text, milli_text, milli_to_text, text_equal, trim_text,
    trimmed,
};

verus! {

/// The kinds of session a frame can belong to.
#[derive(Debug, Clone, Copy, PartialEq, Eq, Structural)]
pub enum SessionKind {
    Light,
    Dark,
    Flat,
    Bias,
}

/// What a frame contributes to a session.
#[derive(Debug, Clone, Copy, PartialEq, Eq, Structural)]
pub enum FileKind {
    Light,
    Calibration { kind: SessionKind, is_master: bool },
}

/// The session kind and master flag of each frame type.
pub open spec fn file_kind_of(t: FileType) -> FileKind {
    match t {
        FileType::Light => FileKind::Light,
        FileType::Dark => FileKind::Calibration { kind: SessionKind::Dark, is_master: false },
        FileType::MasterDark => FileKind::Calibration { kind: SessionKind::Dark, is_master: true },
        FileType::Flat => FileKind::Calibration { kind: SessionKind::Flat, is_master: false },
        FileType::MasterFlat => FileKind::Calibration { kind: SessionKind::Flat, is_master: true },
        FileType::Bias => FileKind::Calibration { kind: SessionKind::Bias, is_master: false },
        FileType::MasterBias => FileKind::Calibration { kind: SessionKind::Bias, is_master: true },
    }
}

/// The session kind and master flag of a frame type.
pub fn normalize_file_type(file_type: &FileType) -> (r: FileKind)
    ensures
        r == file_kind_of(*file_type),
{
    match file_type {
        FileType::Light => FileKind::Light,
        FileType::Dark => FileKind::Calibration { kind: SessionKind::Dark, is_master: false },
        FileType::MasterDark => FileKind::Calibration { kind: SessionKind::Dark, is_master: true },
        FileType::Flat => FileKind::Calibration { kind: SessionKind::Flat, is_master: false },
        FileType::MasterFlat => FileKind::Calibration { kind: SessionKind::Flat, is_master: true },
        FileType::Bias => FileKind::Calibration { kind: SessionKind::Bias, is_master: false },
        FileType::MasterBias => FileKind::Calibration { kind: SessionKind::Bias, is_master: true },
    }
}

// ---------------------------------------------------------------------
// Frame metadata
// ---------------------------------------------------------------------

/// The settings a frame was taken with, as grouping reads them.
#[derive(Debug, Clone)]
pub struct FrameMetadata {
    pub source_night: String,
    pub camera: Option<String>,
    pub filter: Option<String>,
    pub telescope: Option<String>,
    pub exposure: Option<i64>,
    pub gain: Option<i64>,
    pub temperature: Option<i64>,
}

/// The settings a session was formed with; a calibration frame is held against them.
#[derive(Debug, Clone)]
pub struct SessionMatchData {
    pub source_night: String,
    pub camera: Option<String>,
    pub filter: Option<String>,
    pub telescope: Option<String>,
    pub exposure: Option<i64>,
    pub gain: Option<i64>,
    pub temperature: Option<i64>,
}

/// Frame or session settings as a value.
#[verifier::ext_equal]
pub struct MetadataView {
    pub source_night: Seq<char>,
    pub camera: Option<Seq<char>>,
    pub filter: Option<Seq<char>>,
    pub telescope: Option<Seq<char>>,
    pub exposure: Option<i64>,
    pub gain: Option<i64>,
    pub temperature: Option<i64>,
}

impl View for FrameMetadata {
    type V = MetadataView;

    open spec fn view(&self) -> MetadataView {
        MetadataView {
            source_night: self.source_night@,
            camera: opt_text(self.camera),
            filter: opt_text(self.filter),
            telescope: opt_text(self.telescope),
            exposure: self.exposure,
            gain: self.gain,
            temperature: self.temperature,
        }
    }
}

impl View for SessionMatchData {
    type V = MetadataView;

    open spec fn view(&self) -> MetadataView {
        MetadataView {
            source_night: self.source_night@,
            camera: opt_text(self.camera),
            filter: opt_text(self.filter),
            telescope: opt_text(self.telescope),
            exposure: self.exposure,
            gain: self.gain,
            temperature: self.temperature,
        }
    }
}

impl FrameMetadata {
    pub fn duplicate(&self) -> (r: FrameMetadata)
        ensures
            r@ == self@,
    {
        FrameMetadata {
            source_night: self.source_night.clone(),
            camera: copy_opt_text(&self.camera),
            filter: copy_opt_text(&self.filter),
            telescope: copy_opt_text(&self.telescope),
            exposure: self.exposure,
            gain: self.gain,
            temperature: self.temperature,
        }
    }
}

impl SessionMatchData {
    pub fn duplicate(&self) -> (r: SessionMatchData)
        ensures
            r@ == self@,
    {
        SessionMatchData {
            source_night: self.source_night.clone(),
            camera: copy_opt_text(&self.camera),
            filter: copy_opt_text(&self.filter),
            telescope: copy_opt_text(&self.telescope),
            exposure: self.exposure,
            gain: self.gain,
            temperature: self.temperature,
        }
    }
}

/// A header text as grouping keeps it: trimmed, lower-cased, and absent when
/// nothing is left.
pub open spec fn normalized_tag(value: Option<Seq<char>>) -> Option<Seq<char>> {
    match value {
        Some(v) => {
            let t = lowercase_of(trimmed(v));
            if t.len() == 0 {
                None
            } else {
                Some(t)
            }
        },
        None => None,
    }
}

/// Whether a header text, once trimmed, is all ASCII (true when it is absent).
pub open spec fn ascii_tag(value: Option<Seq<char>>) -> bool {
    match value {
        Some(v) => is_ascii_text(trimmed(v)),
        None => true,
    }
}

/// `normalized_tag` for a header text whose trimmed form is all ASCII: trimmed,
/// ASCII lower-cased, and absent when nothing is left.
pub open spec fn ascii_normalized_tag(value: Option<Seq<char>>) -> Option<Seq<char>> {
    match value {
        Some(v) => {
            let t = ascii_lowercase(trimmed(v));
            if t.len() == 0 {
                None
            } else {
                Some(t)
            }
        },
        None => None,
    }
}

/// The characters of an optional text slice.
pub open spec fn opt_str(o: Option<&str>) -> Option<Seq<char>> {
    match o {
        Some(s) => Some(s@),
        None => None,
    }
}

fn normalize_tag(value: Option<&str>) -> (r: Option<String>)
    ensures
        opt_text(r) == normalized_tag(opt_str(value)),
        ascii_tag(opt_str(value)) ==> opt_text(r) == ascii_normalized_tag(opt_str(value)),
{
    match value {
        Some(v) => {
            let t = lowercase_text(trim_text(v));
            if t.as_str().is_empty() {
                None
            } else {
                Some(t)
            }
        },
        None => None,
    }
}

/// The settings of a frame of the night `source_night`, from the header values
/// read off it.
pub fn frame_metadata_from_tags(
    source_night: &str,
    camera: Option<&str>,
    filter: Option<&str>,
    telescope: Option<&str>,
    exposure: Option<i64>,
    gain: Option<i64>,
    temperature: Option<i64>,
) -> (r: FrameMetadata)
    ensures
        r@ == (MetadataView {
            source_night: source_night@,
            camera: normalized_tag(opt_str(camera)),
            filter: normalized_tag(opt_str(filter)),
            telescope: normalized_tag(opt_str(telescope)),
            exposure,
            gain,
            temperature,
        }),
        ascii_tag(opt_str(camera)) ==> r@.camera == ascii_normalized_tag(opt_str(camera)),
        ascii_tag(opt_str(filter)) ==> r@.filter == ascii_normalized_tag(opt_str(filter)),
        ascii_tag(opt_str(telescope)) ==> r@.telescope == ascii_normalized_tag(opt_str(telescope)),
{
    let mut night = String::new();
    append_text(&mut night, source_night);
    FrameMetadata {
        source_night: night,
        camera: normalize_tag(camera),
        filter: normalize_tag(filter),
        telescope: normalize_tag(telescope),
        exposure,
        gain,
        temperature,
    }
}

/// The largest magnitude, in thousandths, that grouping rounds.
pub const MILLI_LIMIT: i64 = 1_000_000_000_000_000i64;

/// A value that grouping can round without leaving the `i64` range.
pub open spec fn milli_in_range(v: Option<i64>) -> bool {
    match v {
        Some(x) => -MILLI_LIMIT <= x <= MILLI_LIMIT,
        None => true,
    }
}

/// The metadata values of a frame are all within the range grouping rounds.
pub open spec fn metadata_in_range(m: MetadataView) -> bool {
    milli_in_range(m.exposure) && milli_in_range(m.gain) && milli_in_range(m.temperature)
}

/// The multiple of `step` nearest to `x`, halves rounded away from zero.
pub open spec fn nearest_multiple(x: int, step: int) -> int {
    let a = if x < 0 { -x } else { x };
    let q = (2 * a + step) / (2 * step);
    if x < 0 { -(q * step) } else { q * step }
}

/// A value rounded to the nearest multiple of `step`; with a step that is not
/// positive the value is kept.
pub open spec fn stepped(v: Option<i64>, step: i64) -> Option<i64> {
    match v {
        Some(x) => if step <= 0 {
            Some(x)
        } else {
            Some(nearest_multiple(x as int, step as int) as i64)
        },
        None => None,
    }
}

/// A value rounded to the nearest multiple of `step` (halves away from zero);
/// with a step that is not positive the value is kept. Value and step are
/// exact thousandths, so a value halfway between two multiples always goes
/// away from zero; a reading held as an `f32` and divided by an `f32` step
/// lands slightly off the halfway point and goes to whichever multiple it is
/// nearer: 0.35 s at a step of 0.1 s rounds to 0.4 s here, where the `f32`
/// computation gives 0.3 s. Zero has no sign here: a negative value that
/// rounds to zero gives 0, and its key reads "0.000" like that of a small
/// positive value, where the `f32` computation gives a negative zero written
/// "-0.000".
pub fn round_to_step(value: Option<i64>, step: i64) -> (r: Option<i64>)
    requires
        milli_in_range(value),
        step <= MILLI_LIMIT,
    ensures
        r == stepped(value, step),
{
    let x = match value {
        Some(x) => x,
        None => {
            return None;
        },
    };
    if step <= 0 {
        return Some(x);
    }
    let a: i64 = if x < 0 { -x } else { x };
    let q: i64 = (2 * a + step) / (2 * step);
    assert(q * step <= a + step) by (nonlinear_arith)
        requires
            q == (2 * a + step) / (2 * step),
            0 <= a,
            0 < step,
    {
        assert(2 * step * q <= 2 * a + step);
    }
    assert(0 <= q * step) by (nonlinear_arith)
        requires
            0 <= q,
            0 < step,
    ;
    let m: i64 = q * step;
    let r: i64 = if x < 0 { -m } else { m };
    assert(r as int == nearest_multiple(x as int, step as int));
    Some(r)
}

/// Frame settings with exposure, gain and temperature rounded to their steps.
pub open spec fn rounded_metadata(
    m: MetadataView,
    temperature_step: i64,
    exposure_step: i64,
    gain_step: i64,
) -> MetadataView {
    MetadataView {
        source_night: m.source_night,
        camera: m.camera,
        filter: m.filter,
        telescope: m.telescope,
        exposure: stepped(m.exposure, exposure_step),
        gain: stepped(m.gain, gain_step),
        temperature: stepped(m.temperature, temperature_step),
    }
}

fn round_metadata(m: &FrameMetadata, temperature_step: i64, exposure_step: i64, gain_step: i64) -> (r:
    FrameMetadata)
    requires
        metadata_in_range(m@),
        temperature_step <= MILLI_LIMIT,
        exposure_step <= MILLI_LIMIT,
        gain_step <= MILLI_LIMIT,
    ensures
        r@ == rounded_metadata(m@, temperature_step, exposure_step, gain_step),
{
    FrameMetadata {
        source_night: m.source_night.clone(),
        camera: copy_opt_text(&m.camera),
        filter: copy_opt_text(&m.filter),
        telescope: copy_opt_text(&m.telescope),
        exposure: round_to_step(m.exposure, exposure_step),
        gain: round_to_step(m.gain, gain_step),
        temperature: round_to_step(m.temperature, temperature_step),
    }
}

// ---------------------------------------------------------------------
// Matching
// ---------------------------------------------------------------------

/// A text setting matches when the frame does not give it or the session has the same.
pub open spec fn text_matches(session: Option<Seq<char>>, frame: Option<Seq<char>>) -> bool {
    match frame {
        Some(v) => session == Some(v),
        None => true,
    }
}

/// Two values in thousandths are equal within a hundredth of a unit.
pub open spec fn close_enough(left: i64, right: i64) -> bool {
    -10 <= left - right <= 10
}

/// A numeric setting matches when the frame does not give it or the session has
/// one close enough to it.
pub open spec fn value_matches(session: Option<i64>, frame: Option<i64>) -> bool {
    match frame {
        Some(v) => match session {
            Some(s) => close_enough(s, v),
            None => false,
        },
        None => true,
    }
}

/// Whether a master frame of `kind` fits a session: same camera, telescope and
/// exposure, and for flats the same filter; gain and temperature do not matter.
pub open spec fn master_fits(kind: SessionKind, session: MetadataView, frame: MetadataView) -> bool {
    &&& text_matches(session.camera, frame.camera)
    &&& text_matches(session.telescope, frame.telescope)
    &&& value_matches(session.exposure, frame.exposure)
    &&& (kind == SessionKind::Flat ==> text_matches(session.filter, frame.filter))
}

/// Whether a calibration frame of `kind` fits a session.
pub open spec fn calibration_fits(kind: SessionKind, session: MetadataView, frame: MetadataView) -> bool {
    match kind {
        SessionKind::Light => {
            &&& text_matches(session.camera, frame.camera)
            &&& text_matches(session.filter, frame.filter)
            &&& value_matches(session.exposure, frame.exposure)
            &&& value_matches(session.gain, frame.gain)
            &&& value_matches(session.temperature, frame.temperature)
        },
        SessionKind::Dark => {
            &&& text_matches(session.camera, frame.camera)
            &&& value_matches(session.exposure, frame.exposure)
            &&& value_matches(session.gain, frame.gain)
            &&& value_matches(session.temperature, frame.temperature)
        },
        SessionKind::Flat => {
            &&& text_matches(session.camera, frame.camera)
            &&& text_matches(session.filter, frame.filter)
            &&& value_matches(session.gain, frame.gain)
        },
        SessionKind::Bias => {
            &&& text_matches(session.camera, frame.camera)
            &&& value_matches(session.gain, frame.gain)
        },
    }
}

fn as_text(o: &Option<String>) -> (r: Option<&str>)
    ensures
        opt_str(r) == opt_text(*o),
{
    match o {
        Some(s) => Some(s.as_str()),
        None => None,
    }
}

/// Whether a text setting of a frame matches the session's.
pub fn matches_optional_text(session_value: Option<&str>, metadata_value: Option<&str>) -> (r: bool)
    ensures
        r == text_matches(opt_str(session_value), opt_str(metadata_value)),
{
    match metadata_value {
        Some(v) => match session_value {
            Some(s) => text_equal(s, v),
            None => false,
        },
        None => true,
    }
}

/// Whether two values in thousandths are equal within a hundredth of a unit.
/// The values are exact, so two values exactly a hundredth apart always
/// match. Held as `f32` readings, such a pair lies a little above or below a
/// hundredth apart, depending on how the two decimals round to binary: 0.01
/// against 0.00 matches there too, but 100.01 against 100.00 does not.
pub fn approx_equal(left: i64, right: i64) -> (r: bool)
    ensures
        r == close_enough(left, right),
{
    let d: i128 = (left as i128) - (right as i128);
    -10 <= d && d <= 10
}

/// Whether a numeric setting of a frame matches the session's.
pub fn matches_optional_float(session_value: Option<i64>, metadata_value: Option<i64>) -> (r: bool)
    ensures
        r == value_matches(session_value, metadata_value),
{
    match metadata_value {
        Some(v) => match session_value {
            Some(s) => approx_equal(s, v),
            None => false,
        },
        None => true,
    }
}

/// Whether a master frame of `kind` with settings `metadata` fits the session.
pub fn master_calibration_matches_session(
    kind: SessionKind,
    session: &SessionMatchData,
    metadata: &FrameMetadata,
) -> (r: bool)
    ensures
        r == master_fits(kind, session@, metadata@),
{
    matches_optional_text(as_text(&session.camera), as_text(&metadata.camera))
        && matches_optional_text(as_text(&session.telescope), as_text(&metadata.telescope))
        && matches_optional_float(session.exposure, metadata.exposure) && match kind {
        SessionKind::Flat => matches_optional_text(as_text(&session.filter), as_text(&metadata.filter)),
        SessionKind::Light | SessionKind::Dark | SessionKind::Bias => true,
    }
}

/// Whether a calibration frame of `kind` with settings `metadata` fits the session.
pub fn calibration_matches_session(
    kind: SessionKind,
    session: &SessionMatchData,
    metadata: &FrameMetadata,
) -> (r: bool)
    ensures
        r == calibration_fits(kind, session@, metadata@),
{
    match kind {
        SessionKind::Light => {
            matches_optional_text(as_text(&session.camera), as_text(&metadata.camera))
                && matches_optional_text(as_text(&session.filter), as_text(&metadata.filter))
                && matches_optional_float(session.exposure, metadata.exposure)
                && matches_optional_float(session.gain, metadata.gain)
                && matches_optional_float(session.temperature, metadata.temperature)
        },
        SessionKind::Dark => {
            matches_optional_text(as_text(&session.camera), as_text(&metadata.camera))
                && matches_optional_float(session.exposure, metadata.exposure)
                && matches_optional_float(session.gain, metadata.gain)
                && matches_optional_float(session.temperature, metadata.temperature)
        },
        SessionKind::Flat => {
            matches_optional_text(as_text(&session.camera), as_text(&metadata.camera))
                && matches_optional_text(as_text(&session.filter), as_text(&metadata.filter))
                && matches_optional_float(session.gain, metadata.gain)
        },
        SessionKind::Bias => {
            matches_optional_text(as_text(&session.camera), as_text(&metadata.camera))
                && matches_optional_float(session.gain, metadata.gain)
        },
    }
}

// ---------------------------------------------------------------------
// Session keys
// ---------------------------------------------------------------------

/// A text setting as it appears in a key: trimmed and lower-cased, empty when absent.
pub open spec fn key_text(value: Option<Seq<char>>) -> Seq<char> {
    match value {
        Some(v) => lowercase_of(trimmed(v)),
        None => Seq::empty(),
    }
}

/// A numeric setting as it appears in a key: three decimals, empty when absent.
pub open spec fn key_number(value: Option<i64>) -> Seq<char> {
    match value {
        Some(v) => milli_text(v as int, 3),
        None => Seq::empty(),
    }
}

/// The word that starts the key of a session formed by frames of `kind`.
pub open spec fn kind_word(kind: SessionKind) -> Seq<char> {
    match kind {
        SessionKind::Light => "light"@,
        SessionKind::Dark => "dark"@,
        SessionKind::Flat => "flat"@,
        SessionKind::Bias => "bias"@,
    }
}

/// The word that starts the key of a session formed by a master frame of `kind`.
pub open spec fn master_word(kind: SessionKind) -> Seq<char> {
    match kind {
        SessionKind::Light => "light"@,
        SessionKind::Dark => "master-dark"@,
        SessionKind::Flat => "master-flat"@,
        SessionKind::Bias => "master-bias"@,
    }
}

/// The key of the session formed by frames of `kind` with settings `m`:
/// `kind:night:camera:filter:telescope:exposure:gain:temperature`.
pub open spec fn session_key(kind: SessionKind, m: MetadataView) -> Seq<char> {
    kind_word(kind) + ":"@ + m.source_night + ":"@ + key_text(m.camera) + ":"@ + key_text(m.filter)
        + ":"@ + key_text(m.telescope) + ":"@ + key_number(m.exposure) + ":"@ + key_number(m.gain)
        + ":"@ + key_number(m.temperature)
}

/// The key of the session formed by a master frame of `kind` with settings `m`:
/// `master-kind:night:camera:filter:telescope:exposure`.
pub open spec fn master_session_key(kind: SessionKind, m: MetadataView) -> Seq<char> {
    master_word(kind) + ":"@ + m.source_night + ":"@ + key_text(m.camera) + ":"@ + key_text(m.filter)
        + ":"@ + key_text(m.telescope) + ":"@ + key_number(m.exposure)
}

/// A text setting as it appears in a key.
pub fn format_optional_text(value: Option<&str>) -> (r: String)
    ensures
        r@ == key_text(opt_str(value)),
        value matches Some(v) ==> (is_ascii_text(trimmed(v@)) ==> r@ == ascii_lowercase(
            trimmed(v@),
        )),
{
    match value {
        Some(v) => lowercase_text(trim_text(v)),
        None => String::new(),
    }
}

/// A numeric setting as it appears in a key.
pub fn format_optional_float(value: Option<i64>) -> (r: String)
    ensures
        r@ == key_number(value),
{
    match value {
        Some(v) => milli_to_text(v, 3),
        None => String::new(),
    }
}

fn append_kind_word(s: &mut String, kind: SessionKind)
    ensures
        final(s)@ == old(s)@ + kind_word(kind),
{
    match kind {
        SessionKind::Light => append_text(s, "light"),
        SessionKind::Dark => append_text(s, "dark"),
        SessionKind::Flat => append_text(s, "flat"),
        SessionKind::Bias => append_text(s, "bias"),
    }
}

fn append_master_word(s: &mut String, kind: SessionKind)
    ensures
        final(s)@ == old(s)@ + master_word(kind),
{
    match kind {
        SessionKind::Light => append_text(s, "light"),
        SessionKind::Dark => append_text(s, "master-dark"),
        SessionKind::Flat => append_text(s, "master-flat"),
        SessionKind::Bias => append_text(s, "master-bias"),
    }
}

fn append_common_fields(s: &mut String, metadata: &FrameMetadata)
    ensures
        final(s)@ == old(s)@ + ":"@ + metadata@.source_night + ":"@ + key_text(metadata@.camera)
            + ":"@ + key_text(metadata@.filter) + ":"@ + key_text(metadata@.telescope) + ":"@
            + key_number(metadata@.exposure),
{
    append_text(s, ":");
    append_text(s, metadata.source_night.as_str());
    append_text(s, ":");
    let camera = format_optional_text(as_text(&metadata.camera));
    append_text(s, camera.as_str());
    append_text(s, ":");
    let filter = format_optional_text(as_text(&metadata.filter));
    append_text(s, filter.as_str());
    append_text(s, ":");
    let telescope = format_optional_text(as_text(&metadata.telescope));
    append_text(s, telescope.as_str());
    append_text(s, ":");
    let exposure = format_optional_float(metadata.exposure);
    append_text(s, exposure.as_str());
}

/// The key of the session formed by calibration frames of `kind` with these settings.
pub fn calibration_session_key(kind: SessionKind, metadata: &FrameMetadata) -> (r: String)
    ensures
        r@ == session_key(kind, metadata@),
{
    let mut s = String::new();
    append_kind_word(&mut s, kind);
    append_common_fields(&mut s, metadata);
    append_text(&mut s, ":");
    let gain = format_optional_float(metadata.gain);
    append_text(&mut s, gain.as_str());
    append_text(&mut s, ":");
    let temperature = format_optional_float(metadata.temperature);
    append_text(&mut s, temperature.as_str());
    assert(s@ =~= session_key(kind, metadata@));
    s
}

/// The key of the session formed by light frames with these settings.
pub fn light_session_key(metadata: &FrameMetadata) -> (r: String)
    ensures
        r@ == session_key(SessionKind::Light, metadata@),
{
    calibration_session_key(SessionKind::Light, metadata)
}

/// The key of the session formed by a master frame of `kind` with these settings.
pub fn master_calibration_session_key(kind: SessionKind, metadata: &FrameMetadata) -> (r: String)
    ensures
        r@ == master_session_key(kind, metadata@),
{
    let mut s = String::new();
    append_master_word(&mut s, kind);
    append_common_fields(&mut s, metadata);
    assert(s@ =~= master_session_key(kind, metadata@));
    s
}

// ---------------------------------------------------------------------
// Buckets
// ---------------------------------------------------------------------

/// A session being formed.
#[derive(Debug, Clone)]
pub struct SessionBucket {
    pub key: String,
    pub fingerprint: SessionFingerprint,
    pub match_data: SessionMatchData,
    pub lights: Vec<File>,
    pub master_dark: Option<File>,
    pub darks: Vec<File>,
    pub master_flat: Option<File>,
    pub flats: Vec<File>,
    pub master_bias: Option<File>,
    pub biases: Vec<File>,
}

#[verifier::ext_equal]
pub struct BucketView {
    pub key: Seq<char>,
    pub fingerprint: FingerprintView,
    pub match_data: MetadataView,
    pub lights: Seq<FileView>,
    pub master_dark: Option<FileView>,
    pub darks: Seq<FileView>,
    pub master_flat: Option<FileView>,
    pub flats: Seq<FileView>,
    pub master_bias: Option<FileView>,
    pub biases: Seq<FileView>,
}

/// The value of an optional frame.
pub open spec fn opt_file(o: Option<File>) -> Option<FileView> {
    match o {
        Some(f) => Some(f@),
        None => None,
    }
}

impl View for SessionBucket {
    type V = BucketView;

    open spec fn view(&self) -> BucketView {
        BucketView {
            key: self.key@,
            fingerprint: self.fingerprint@,
            match_data: self.match_data@,
            lights: crate::files::file_views(self.lights@),
            master_dark: opt_file(self.master_dark),
            darks: crate::files::file_views(self.darks@),
            master_flat: opt_file(self.master_flat),
            flats: crate::files::file_views(self.flats@),
            master_bias: opt_file(self.master_bias),
            biases: crate::files::file_views(self.biases@),
        }
    }
}

/// The values of a sequence of buckets.
pub open spec fn bucket_views(s: Seq<SessionBucket>) -> Seq<BucketView> {
    s.map_values(|b: SessionBucket| b@)
}

/// Missing text read as empty.
pub open spec fn or_empty(o: Option<Seq<char>>) -> Seq<char> {
    match o {
        Some(s) => s,
        None => Seq::empty(),
    }
}

/// A missing value read as zero.
pub open spec fn or_zero(o: Option<i64>) -> i64 {
    match o {
        Some(v) => v,
        None => 0,
    }
}

/// The fingerprint of a session formed by a frame with settings `m`.
pub open spec fn fingerprint_of(m: MetadataView) -> FingerprintView {
    FingerprintView {
        name: m.source_night,
        camera: or_empty(m.camera),
        filter: or_empty(m.filter),
        exposure: or_zero(m.exposure),
        gain: or_zero(m.gain),
        temperature: or_zero(m.temperature),
    }
}

/// Settings with an empty night and no values.
pub open spec fn blank_metadata() -> MetadataView {
    MetadataView {
        source_night: Seq::empty(),
        camera: None,
        filter: None,
        telescope: None,
        exposure: None,
        gain: None,
        temperature: None,
    }
}

/// An empty session under `key`, formed by a frame with settings `m`.
pub open spec fn new_bucket(key: Seq<char>, m: MetadataView) -> BucketView {
    BucketView {
        key,
        fingerprint: fingerprint_of(m),
        match_data: m,
        lights: Seq::empty(),
        master_dark: None,
        darks: Seq::empty(),
        master_flat: None,
        flats: Seq::empty(),
        master_bias: None,
        biases: Seq::empty(),
    }
}

/// A session after it took the frame `f` as a frame (or master frame) of `kind`.
pub open spec fn bucket_push(b: BucketView, kind: SessionKind, is_master: bool, f: FileView) -> BucketView {
    match kind {
        SessionKind::Light => BucketView { lights: b.lights.push(f), ..b },
        SessionKind::Dark => if is_master {
            BucketView { master_dark: Some(f), ..b }
        } else {
            BucketView { darks: b.darks.push(f), ..b }
        },
        SessionKind::Flat => if is_master {
            BucketView { master_flat: Some(f), ..b }
        } else {
            BucketView { flats: b.flats.push(f), ..b }
        },
        SessionKind::Bias => if is_master {
            BucketView { master_bias: Some(f), ..b }
        } else {
            BucketView { biases: b.biases.push(f), ..b }
        },
    }
}

/// Whether the session holds a master frame of `kind`.
pub open spec fn has_master(b: BucketView, kind: SessionKind) -> bool {
    match kind {
        SessionKind::Light => false,
        SessionKind::Dark => b.master_dark is Some,
        SessionKind::Flat => b.master_flat is Some,
        SessionKind::Bias => b.master_bias is Some,
    }
}

/// Whether the session holds a master frame of `kind` that fits a frame with settings `m`.
pub open spec fn has_master_match(b: BucketView, kind: SessionKind, m: MetadataView) -> bool {
    has_master(b, kind) && master_fits(kind, b.match_data, m)
}

/// Whether the session takes a calibration frame: master frames are held to
/// `master_fits`, other frames to `calibration_fits`. The night a frame was
/// taken plays no part, so calibration frames serve sessions of other nights.
pub open spec fn bucket_takes(b: BucketView, kind: SessionKind, is_master: bool, m: MetadataView) -> bool {
    if is_master {
        master_fits(kind, b.match_data, m)
    } else {
        calibration_fits(kind, b.match_data, m)
    }
}

/// The first position of a session under `key`, or -1 when there is none.
pub open spec fn key_position(bs: Seq<BucketView>, key: Seq<char>) -> int
    decreases bs.len(),
{
    if bs.len() == 0 {
        -1
    } else if bs[0].key == key {
        0
    } else {
        let p = key_position(bs.drop_first(), key);
        if p < 0 {
            -1
        } else {
            p + 1
        }
    }
}

/// The sessions after the session under `key` took the frame `f`; when there is
/// no such session, a new one under `key` is formed from `m` and takes it.
pub open spec fn add_to_keyed(
    bs: Seq<BucketView>,
    key: Seq<char>,
    m: MetadataView,
    kind: SessionKind,
    is_master: bool,
    f: FileView,
) -> Seq<BucketView> {
    let p = key_position(bs, key);
    if 0 <= p {
        bs.update(p, bucket_push(bs[p], kind, is_master, f))
    } else {
        bs.push(bucket_push(new_bucket(key, m), kind, is_master, f))
    }
}

/// The sessions after a light frame with settings `m` was filed.
pub open spec fn insert_light(bs: Seq<BucketView>, m: MetadataView, f: FileView) -> Seq<BucketView> {
    add_to_keyed(bs, session_key(SessionKind::Light, m), m, SessionKind::Light, false, f)
}

/// The sessions after a calibration frame was filed. An ordinary frame is
/// dropped when some session holds a fitting master of its kind. Otherwise every
/// session that takes the frame gets it; when none does, the frame goes to the
/// session under its own key.
pub open spec fn insert_calibration(
    bs: Seq<BucketView>,
    kind: SessionKind,
    is_master: bool,
    m: MetadataView,
    f: FileView,
) -> Seq<BucketView> {
    if !is_master && exists|j: int| 0 <= j < bs.len() && #[trigger] has_master_match(bs[j], kind, m) {
        bs
    } else if exists|j: int| 0 <= j < bs.len() && #[trigger] bucket_takes(bs[j], kind, is_master, m) {
        Seq::new(
            bs.len(),
            |j: int|
                if bucket_takes(bs[j], kind, is_master, m) {
                    bucket_push(bs[j], kind, is_master, f)
                } else {
                    bs[j]
                },
        )
    } else {
        let key = if is_master {
            master_session_key(kind, m)
        } else {
            session_key(kind, m)
        };
        add_to_keyed(bs, key, m, kind, is_master, f)
    }
}

proof fn lemma_key_position(bs: Seq<BucketView>, key: Seq<char>, i: int)
    requires
        0 <= i <= bs.len(),
        forall|j: int| 0 <= j < i ==> #[trigger] bs[j].key != key,
        i < bs.len() ==> bs[i].key == key,
    ensures
        key_position(bs, key) == (if i < bs.len() { i } else { -1 }),
    decreases i,
{
    if i > 0 {
        assert(bs[0].key != key);
        assert forall|j: int| 0 <= j < i - 1 implies #[trigger] bs.drop_first()[j].key != key by {
            assert(bs.drop_first()[j] == bs[j + 1]);
        }
        lemma_key_position(bs.drop_first(), key, i - 1);
    }
}

/// The fingerprint of a session formed by a frame with these settings.
pub fn create_session_fingerprint(metadata: &FrameMetadata) -> (r: SessionFingerprint)
    ensures
        r@ == fingerprint_of(metadata@),
{
    SessionFingerprint {
        name: metadata.source_night.clone(),
        camera: match &metadata.camera {
            Some(c) => c.clone(),
            None => String::new(),
        },
        filter: match &metadata.filter {
            Some(c) => c.clone(),
            None => String::new(),
        },
        exposure: match metadata.exposure {
            Some(v) => v,
            None => 0,
        },
        gain: match metadata.gain {
            Some(v) => v,
            None => 0,
        },
        temperature: match metadata.temperature {
            Some(v) => v,
            None => 0,
        },
    }
}

/// The settings a session formed by a frame with these settings is held to.
pub fn create_session_match_data(metadata: &FrameMetadata) -> (r: SessionMatchData)
    ensures
        r@ == metadata@,
{
    SessionMatchData {
        source_night: metadata.source_night.clone(),
        camera: copy_opt_text(&metadata.camera),
        filter: copy_opt_text(&metadata.filter),
        telescope: copy_opt_text(&metadata.telescope),
        exposure: metadata.exposure,
        gain: metadata.gain,
        temperature: metadata.temperature,
    }
}

impl SessionBucket {
    /// An empty session under `key`.
    pub fn new(key: String, fingerprint: SessionFingerprint, match_data: SessionMatchData) -> (r:
        SessionBucket)
        ensures
            r@ == (BucketView {
                key: key@,
                fingerprint: fingerprint@,
                match_data: match_data@,
                lights: Seq::empty(),
                master_dark: None,
                darks: Seq::empty(),
                master_flat: None,
                flats: Seq::empty(),
                master_bias: None,
                biases: Seq::empty(),
            }),
    {
        let r = SessionBucket {
            key,
            fingerprint,
            match_data,
            lights: Vec::new(),
            master_dark: None,
            darks: Vec::new(),
            master_flat: None,
            flats: Vec::new(),
            master_bias: None,
            biases: Vec::new(),
        };
        assert(r@.lights =~= Seq::<FileView>::empty());
        assert(r@.darks =~= Seq::<FileView>::empty());
        assert(r@.flats =~= Seq::<FileView>::empty());
        assert(r@.biases =~= Seq::<FileView>::empty());
        r
    }

    /// Whether the session holds a master frame of `kind`.
    pub fn has_master(&self, kind: SessionKind) -> (r: bool)
        ensures
            r == has_master(self@, kind),
    {
        match kind {
            SessionKind::Light => false,
            SessionKind::Dark => self.master_dark.is_some(),
            SessionKind::Flat => self.master_flat.is_some(),
            SessionKind::Bias => self.master_bias.is_some(),
        }
    }

    /// Files `file` as a frame (or master frame) of `kind`.
    pub fn push(&mut self, kind: SessionKind, is_master: bool, file: File)
        ensures
            final(self)@ == bucket_push(old(self)@, kind, is_master, file@),
    {
        match kind {
            SessionKind::Light => self.lights.push(file),
            SessionKind::Dark => {
                if is_master {
                    self.master_dark = Some(file);
                } else {
                    self.darks.push(file);
                }
            },
            SessionKind::Flat => {
                if is_master {
                    self.master_flat = Some(file);
                } else {
                    self.flats.push(file);
                }
            },
            SessionKind::Bias => {
                if is_master {
                    self.master_bias = Some(file);
                } else {
                    self.biases.push(file);
                }
            },
        }
        assert(final(self)@ =~= bucket_push(old(self)@, kind, is_master, file@));
    }

    /// The session this bucket forms: a master frame, where there is one, stands
    /// for the ordinary frames of its kind.
    pub fn into_session(self) -> (r: AstroSession)
        ensures
            r@ == session_of_bucket(self@),
    {
        let darks = match self.master_dark {
            Some(m) => MasterOrFrames::Master(m),
            None => MasterOrFrames::Frames(self.darks),
        };
        let flats = match self.master_flat {
            Some(m) => MasterOrFrames::Master(m),
            None => MasterOrFrames::Frames(self.flats),
        };
        let biases = match self.master_bias {
            Some(m) => MasterOrFrames::Master(m),
            None => MasterOrFrames::Frames(self.biases),
        };
        AstroSession {
            uuid: self.key,
            fingerprint: self.fingerprint,
            lights: self.lights,
            darks,
            flats,
            biases,
            master_dark: None,
            master_flat: None,
            master_bias: None,
        }
    }
}

/// A slot holding the master frame when there is one, the ordinary frames otherwise.
pub open spec fn slot_of(master: Option<FileView>, frames: Seq<FileView>) -> SlotView {
    match master {
        Some(f) => SlotView::Master(f),
        None => SlotView::Frames(frames),
    }
}

/// The session a bucket forms.
pub open spec fn session_of_bucket(b: BucketView) -> SessionView {
    SessionView {
        uuid: b.key,
        fingerprint: b.fingerprint,
        lights: b.lights,
        darks: slot_of(b.master_dark, b.darks),
        flats: slot_of(b.master_flat, b.flats),
        biases: slot_of(b.master_bias, b.biases),
        master_dark: None,
        master_flat: None,
        master_bias: None,
    }
}

fn placeholder_bucket() -> (r: SessionBucket)
    ensures
        r@ == new_bucket(Seq::empty(), blank_metadata()),
{
    SessionBucket::new(
        String::new(),
        SessionFingerprint {
            name: String::new(),
            camera: String::new(),
            filter: String::new(),
            exposure: 0,
            gain: 0,
            temperature: 0,
        },
        SessionMatchData {
            source_night: String::new(),
            camera: None,
            filter: None,
            telescope: None,
            exposure: None,
            gain: None,
            temperature: None,
        },
    )
}

fn push_at(buckets: &mut Vec<SessionBucket>, i: usize, kind: SessionKind, is_master: bool, file: File)
    requires
        i < old(buckets).len(),
    ensures
        final(buckets)@.len() == old(buckets)@.len(),
        bucket_views(final(buckets)@) == bucket_views(old(buckets)@).update(
            i as int,
            bucket_push(old(buckets)@[i as int]@, kind, is_master, file@),
        ),
{
    let mut tmp = placeholder_bucket();
    buckets.set_and_swap(i, &mut tmp);
    tmp.push(kind, is_master, file);
    buckets.set_and_swap(i, &mut tmp);
    assert(bucket_views(buckets@) =~= bucket_views(old(buckets)@).update(
        i as int,
        bucket_push(old(buckets)@[i as int]@, kind, is_master, file@),
    ));
}

/// Files `file` into the session under `key`, forming that session from
/// `metadata` when there is none.
fn add_to_keyed_bucket(
    buckets: &mut Vec<SessionBucket>,
    key: String,
    metadata: &FrameMetadata,
    kind: SessionKind,
    is_master: bool,
    file: File,
)
    ensures
        bucket_views(final(buckets)@) == add_to_keyed(
            bucket_views(old(buckets)@),
            key@,
            metadata@,
            kind,
            is_master,
            file@,
        ),
{
    let ghost bs = bucket_views(buckets@);
    let mut i: usize = 0;
    while i < buckets.len()
        invariant
            i <= buckets.len(),
            bucket_views(buckets@) == bs,
            bs == bucket_views(old(buckets)@),
            forall|j: int| 0 <= j < i ==> #[trigger] bs[j].key != key@,
        decreases buckets.len() - i,
    {
        if text_equal(buckets[i].key.as_str(), key.as_str()) {
            proof {
                lemma_key_position(bs, key@, i as int);
            }
            assert(bs[i as int] == buckets@[i as int]@);
            push_at(buckets, i, kind, is_master, file);
            return;
        }
        i = i + 1;
    }
    proof {
        lemma_key_position(bs, key@, bs.len() as int);
    }
    let fingerprint = create_session_fingerprint(metadata);
    let match_data = create_session_match_data(metadata);
    let mut bucket = SessionBucket::new(key, fingerprint, match_data);
    bucket.push(kind, is_master, file);
    buckets.push(bucket);
    assert(bucket_views(buckets@) =~= add_to_keyed(bs, key@, metadata@, kind, is_master, file@));
}

/// Files a light frame into the session of its key.
pub fn insert_light_file(buckets: &mut Vec<SessionBucket>, metadata: &FrameMetadata, file: File)
    ensures
        bucket_views(final(buckets)@) == insert_light(bucket_views(old(buckets)@), metadata@, file@),
{
    let key = light_session_key(metadata);
    add_to_keyed_bucket(buckets, key, metadata, SessionKind::Light, false, file);
}

/// Whether the session holds a master frame of `kind` that fits the frame.
pub fn bucket_has_master_match(bucket: &SessionBucket, kind: SessionKind, metadata: &FrameMetadata) -> (r:
    bool)
    ensures
        r == has_master_match(bucket@, kind, metadata@),
{
    bucket.has_master(kind) && master_calibration_matches_session(kind, &bucket.match_data, metadata)
}

fn bucket_takes_file(bucket: &SessionBucket, kind: SessionKind, is_master: bool, metadata: &FrameMetadata) -> (r:
    bool)
    ensures
        r == bucket_takes(bucket@, kind, is_master, metadata@),
{
    if is_master {
        master_calibration_matches_session(kind, &bucket.match_data, metadata)
    } else {
        calibration_matches_session(kind, &bucket.match_data, metadata)
    }
}

/// Files a calibration frame: see `insert_calibration`.
pub fn insert_calibration_file(
    light_sessions: &mut Vec<SessionBucket>,
    kind: SessionKind,
    is_master: bool,
    metadata: FrameMetadata,
    file: File,
)
    ensures
        bucket_views(final(light_sessions)@) == insert_calibration(
            bucket_views(old(light_sessions)@),
            kind,
            is_master,
            metadata@,
            file@,
        ),
{
    let ghost bs = bucket_views(light_sessions@);
    if !is_master {
        let mut i: usize = 0;
        while i < light_sessions.len()
            invariant
                i <= light_sessions.len(),
                bucket_views(light_sessions@) == bs,
                bs == bucket_views(old(light_sessions)@),
                !is_master,
                forall|j: int| 0 <= j < i ==> !#[trigger] has_master_match(bs[j], kind, metadata@),
            decreases light_sessions.len() - i,
        {
            if bucket_has_master_match(&light_sessions[i], kind, &metadata) {
                assert(bs[i as int] == light_sessions@[i as int]@);
                assert(has_master_match(bs[i as int], kind, metadata@));
                return;
            }
            i = i + 1;
        }
    }
    let mut matched_any = false;
    let mut i: usize = 0;
    while i < light_sessions.len()
        invariant
            i <= light_sessions.len(),
            light_sessions.len() == bs.len(),
            forall|j: int|
                0 <= j < i ==> #[trigger] bucket_views(light_sessions@)[j] == (if bucket_takes(
                    bs[j],
                    kind,
                    is_master,
                    metadata@,
                ) {
                    bucket_push(bs[j], kind, is_master, file@)
                } else {
                    bs[j]
                }),
            forall|j: int|
                i <= j < bs.len() ==> #[trigger] bucket_views(light_sessions@)[j] == bs[j],
            bs == bucket_views(old(light_sessions)@),
            matched_any == (exists|j: int|
                0 <= j < i && #[trigger] bucket_takes(bs[j], kind, is_master, metadata@)),
            !is_master ==> forall|j: int|
                0 <= j < bs.len() ==> !#[trigger] has_master_match(bs[j], kind, metadata@),
        decreases light_sessions.len() - i,
    {
        assert(bucket_views(light_sessions@)[i as int] == bs[i as int]);
        assert(light_sessions@[i as int]@ == bs[i as int]);
        let takes = bucket_takes_file(&light_sessions[i], kind, is_master, &metadata);
        if takes {
            push_at(light_sessions, i, kind, is_master, file.duplicate());
            matched_any = true;
        }
        i = i + 1;
    }
    if matched_any {
        assert(bucket_views(light_sessions@) =~= insert_calibration(
            bs,
            kind,
            is_master,
            metadata@,
            file@,
        ));
        return;
    }
    assert(bucket_views(light_sessions@) =~= bs);
    let key = if is_master {
        master_calibration_session_key(kind, &metadata)
    } else {
        calibration_session_key(kind, &metadata)
    };
    add_to_keyed_bucket(light_sessions, key, &metadata, kind, is_master, file);
}

// ---------------------------------------------------------------------
// Grouping a whole scan
// ---------------------------------------------------------------------

/// A picked frame with the settings read off it; frames whose header could not
/// be read carry none and take no part in grouping.
#[derive(Debug, Clone)]
pub struct GroupInput {
    pub file: File,
    pub metadata: Option<FrameMetadata>,
}

pub struct InputView {
    pub file: FileView,
    pub metadata: Option<MetadataView>,
}

/// The value of optional settings.
pub open spec fn opt_metadata(o: Option<FrameMetadata>) -> Option<MetadataView> {
    match o {
        Some(m) => Some(m@),
        None => None,
    }
}

impl View for GroupInput {
    type V = InputView;

    open spec fn view(&self) -> InputView {
        InputView { file: self.file@, metadata: opt_metadata(self.metadata) }
    }
}

/// The values of a sequence of inputs.
pub open spec fn input_views(s: Seq<GroupInput>) -> Seq<InputView> {
    s.map_values(|x: GroupInput| x@)
}

/// The settings of every input are within the range grouping rounds.
pub open spec fn inputs_in_range(s: Seq<InputView>) -> bool {
    forall|i: int|
        0 <= i < s.len() ==> ((#[trigger] s[i]).metadata matches Some(m) ==> metadata_in_range(m))
}

/// A calibration frame waiting to be filed.
pub struct CalibrationEntry {
    pub kind: SessionKind,
    pub metadata: FrameMetadata,
    pub file: File,
}

pub struct EntryView {
    pub kind: SessionKind,
    pub metadata: MetadataView,
    pub file: FileView,
}

impl View for CalibrationEntry {
    type V = EntryView;

    open spec fn view(&self) -> EntryView {
        EntryView { kind: self.kind, metadata: self.metadata@, file: self.file@ }
    }
}

/// The values of a sequence of entries.
pub open spec fn entry_views(s: Seq<CalibrationEntry>) -> Seq<EntryView> {
    s.map_values(|x: CalibrationEntry| x@)
}

/// The sessions formed by the light frames among `inputs`, filed in order.
pub open spec fn lights_phase(inputs: Seq<InputView>, t: i64, e: i64, g: i64) -> Seq<BucketView>
    decreases inputs.len(),
{
    if inputs.len() == 0 {
        Seq::empty()
    } else {
        let prev = lights_phase(inputs.drop_last(), t, e, g);
        let x = inputs.last();
        match x.metadata {
            Some(m) => if file_kind_of(x.file.file_type) == FileKind::Light {
                insert_light(prev, rounded_metadata(m, t, e, g), x.file)
            } else {
                prev
            },
            None => prev,
        }
    }
}

/// The calibration frames among `inputs`, master frames or ordinary ones, in order.
pub open spec fn calibration_entries(inputs: Seq<InputView>, masters: bool, t: i64, e: i64, g: i64) -> Seq<
    EntryView,
>
    decreases inputs.len(),
{
    if inputs.len() == 0 {
        Seq::empty()
    } else {
        let prev = calibration_entries(inputs.drop_last(), masters, t, e, g);
        let x = inputs.last();
        match x.metadata {
            Some(m) => match file_kind_of(x.file.file_type) {
                FileKind::Calibration { kind, is_master } => if is_master == masters {
                    prev.push(EntryView { kind, metadata: rounded_metadata(m, t, e, g), file: x.file })
                } else {
                    prev
                },
                FileKind::Light => prev,
            },
            None => prev,
        }
    }
}

/// The sessions after the calibration frames `entries` were filed in order.
pub open spec fn calibration_phase(bs: Seq<BucketView>, entries: Seq<EntryView>, is_master: bool) -> Seq<
    BucketView,
>
    decreases entries.len(),
{
    if entries.len() == 0 {
        bs
    } else {
        let x = entries.last();
        insert_calibration(
            calibration_phase(bs, entries.drop_last(), is_master),
            x.kind,
            is_master,
            x.metadata,
            x.file,
        )
    }
}

/// The sessions formed from a scan: light frames first, then master frames,
/// then the other calibration frames.
pub open spec fn grouped_buckets(inputs: Seq<InputView>, t: i64, e: i64, g: i64) -> Seq<BucketView> {
    let lights = lights_phase(inputs, t, e, g);
    let with_masters = calibration_phase(lights, calibration_entries(inputs, true, t, e, g), true);
    calibration_phase(with_masters, calibration_entries(inputs, false, t, e, g), false)
}

/// The sessions of a list of buckets.
pub open spec fn sessions_of_buckets(bs: Seq<BucketView>) -> Seq<SessionView> {
    bs.map_values(|b: BucketView| session_of_bucket(b))
}

/// Groups a scan into sessions and lists them in session order. Exposure, gain
/// and temperature are first rounded to the given steps (in thousandths; a step
/// that is not positive leaves the value as it is).
pub fn group_preview_nights(
    inputs: &Vec<GroupInput>,
    temperature_step: i64,
    exposure_step: i64,
    gain_step: i64,
) -> (r: Vec<AstroSession>)
    requires
        inputs_in_range(input_views(inputs@)),
        temperature_step <= MILLI_LIMIT,
        exposure_step <= MILLI_LIMIT,
        gain_step <= MILLI_LIMIT,
    ensures
        session_views(r@).to_multiset() == sessions_of_buckets(
            grouped_buckets(input_views(inputs@), temperature_step, exposure_step, gain_step),
        ).to_multiset(),
        sessions_sorted(session_views(r@)),
        uuids_distinct(session_views(r@)),
        lights_traced(session_views(r@), input_views(inputs@), temperature_step, exposure_step, gain_step),
        lights_filed(session_views(r@), input_views(inputs@), temperature_step, exposure_step, gain_step),
{
    let ghost views = input_views(inputs@);
    let ghost t = temperature_step;
    let ghost e = exposure_step;
    let ghost g = gain_step;
    let mut buckets: Vec<SessionBucket> = Vec::new();
    let mut masters: Vec<CalibrationEntry> = Vec::new();
    let mut calibrations: Vec<CalibrationEntry> = Vec::new();
    let mut i: usize = 0;
    assert(bucket_views(buckets@) =~= lights_phase(views.take(0), t, e, g));
    assert(entry_views(masters@) =~= calibration_entries(views.take(0), true, t, e, g));
    assert(entry_views(calibrations@) =~= calibration_entries(views.take(0), false, t, e, g));
    while i < inputs.len()
        invariant
            i <= inputs.len(),
            views == input_views(inputs@),
            inputs_in_range(views),
            t == temperature_step && e == exposure_step && g == gain_step,
            temperature_step <= MILLI_LIMIT,
            exposure_step <= MILLI_LIMIT,
            gain_step <= MILLI_LIMIT,
            bucket_views(buckets@) == lights_phase(views.take(i as int), t, e, g),
            entry_views(masters@) == calibration_entries(views.take(i as int), true, t, e, g),
            entry_views(calibrations@) == calibration_entries(views.take(i as int), false, t, e, g),
        decreases inputs.len() - i,
    {
        let input = &inputs[i];
        assert(views.take(i + 1).drop_last() =~= views.take(i as int));
        assert(views.take(i + 1).last() == views[i as int]);
        assert(views[i as int] == input@);
        match &input.metadata {
            Some(m) => {
                assert(metadata_in_range(m@));
                let meta = round_metadata(m, temperature_step, exposure_step, gain_step);
                match normalize_file_type(&input.file.file_type) {
                    FileKind::Light => {
                        insert_light_file(&mut buckets, &meta, input.file.duplicate());
                    },
                    FileKind::Calibration { kind, is_master } => {
                        let entry = CalibrationEntry {
                            kind,
                            metadata: meta,
                            file: input.file.duplicate(),
                        };
                        if is_master {
                            masters.push(entry);
                            assert(entry_views(masters@) =~= calibration_entries(
                                views.take(i + 1),
                                true,
                                t,
                                e,
                                g,
                            ));
                        } else {
                            calibrations.push(entry);
                            assert(entry_views(calibrations@) =~= calibration_entries(
                                views.take(i + 1),
                                false,
                                t,
                                e,
                                g,
                            ));
                        }
                    },
                }
            },
            None => {},
        }
        i = i + 1;
    }
    assert(views.take(inputs.len() as int) =~= views);
    let ghost lights = bucket_views(buckets@);
    let ghost master_entries = entry_views(masters@);
    let mut k: usize = 0;
    assert(master_entries.take(0) =~= Seq::<EntryView>::empty());
    while k < masters.len()
        invariant
            k <= masters.len(),
            master_entries == entry_views(masters@),
            bucket_views(buckets@) == calibration_phase(lights, master_entries.take(k as int), true),
        decreases masters.len() - k,
    {
        let entry = &masters[k];
        assert(master_entries.take(k + 1).drop_last() =~= master_entries.take(k as int));
        assert(master_entries.take(k + 1).last() == entry@);
        insert_calibration_file(
            &mut buckets,
            entry.kind,
            true,
            entry.metadata.duplicate(),
            entry.file.duplicate(),
        );
        k = k + 1;
    }
    assert(master_entries.take(masters.len() as int) =~= master_entries);
    let ghost with_masters = bucket_views(buckets@);
    let ghost other_entries = entry_views(calibrations@);
    let mut k: usize = 0;
    assert(other_entries.take(0) =~= Seq::<EntryView>::empty());
    while k < calibrations.len()
        invariant
            k <= calibrations.len(),
            other_entries == entry_views(calibrations@),
            bucket_views(buckets@) == calibration_phase(
                with_masters,
                other_entries.take(k as int),
                false,
            ),
        decreases calibrations.len() - k,
    {
        let entry = &calibrations[k];
        assert(other_entries.take(k + 1).drop_last() =~= other_entries.take(k as int));
        assert(other_entries.take(k + 1).last() == entry@);
        insert_calibration_file(
            &mut buckets,
            entry.kind,
            false,
            entry.metadata.duplicate(),
            entry.file.duplicate(),
        );
        k = k + 1;
    }
    assert(other_entries.take(calibrations.len() as int) =~= other_entries);
    let ghost all = bucket_views(buckets@);
    assert(all == grouped_buckets(views, t, e, g));
    let mut sessions: Vec<AstroSession> = Vec::new();
    let ghost n = all.len();
    while buckets.len() > 0
        invariant
            n == all.len(),
            buckets@.len() <= n,
            bucket_views(buckets@) == all.skip(n - buckets@.len()),
            session_views(sessions@) == sessions_of_buckets(all).take(n - buckets@.len()),
        decreases buckets.len(),
    {
        let ghost before = buckets@;
        let b = buckets.remove(0);
        let ghost done = n - before.len();
        assert(bucket_views(buckets@) =~= all.skip(n - buckets@.len())) by {
            assert forall|j: int| 0 <= j < buckets@.len() implies bucket_views(buckets@)[j] == all.skip(
                n - buckets@.len(),
            )[j] by {
                assert(buckets@[j] == before[j + 1]);
                assert(bucket_views(before)[j + 1] == all.skip(done)[j + 1]);
            }
        }
        assert(b@ == all[done]) by {
            assert(bucket_views(before)[0] == all.skip(done)[0]);
        }
        let ghost old_sessions = sessions@;
        sessions.push(b.into_session());
        assert(session_views(sessions@) =~= sessions_of_buckets(all).take(n - buckets@.len())) by {
            assert(session_views(sessions@) =~= session_views(old_sessions).push(session_of_bucket(all[done])));
        }
    }
    assert(sessions_of_buckets(all).take(n as int) =~= sessions_of_buckets(all));
    let r = sort_sessions(sessions);
    proof {
        lemma_grouped_lights(views, t, e, g);
        lemma_permuted_sessions(session_views(r@), sessions_of_buckets(all), views, t, e, g);
    }
    r
}

} // verus!
