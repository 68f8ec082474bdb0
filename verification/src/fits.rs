//! What the library knows of FITS frames: their kinds and states, the header
//! keys it reads, the layouts of decoded pixel data, and the errors of the
//! file layer.
use vstd::prelude::*;

verus! {

/// The role a frame plays in a session.
#[derive(Debug, Clone, Copy, PartialEq, Eq, Structural)]
pub enum FileType {
    Light,
    Dark,
    Flat,
    Bias,
    MasterDark,
    MasterFlat,
    MasterBias,
}

/// How far a light frame has come through calibration and grading.
#[derive(Debug, Clone, Copy, PartialEq, Eq, Structural)]
pub enum FrameState {
    Default,
    Calibrated,
    Accepted,
    Rejected,
}

impl Default for FrameState {
    /// A frame starts out neither calibrated nor graded.
    fn default() -> (r: Self)
        ensures
            r == FrameState::Default,
    {
        FrameState::Default
    }
}

/// Why a FITS file could not be opened.
#[derive(Debug, Clone, Copy, PartialEq, Eq, Structural)]
pub enum FitsOpenError {
    OpenError,
    NoHudFound,
}

/// Why the pixels of a FITS file could not be read.
#[derive(Debug, Clone, Copy, PartialEq, Eq, Structural)]
pub enum ReadImageError {
    ReadImageFailed,
    UnableToExtractImageSize,
}

/// Why a FITS file could not be written.
#[derive(Debug, Clone, Copy, PartialEq, Eq, Structural)]
pub enum FitsWriteError {
    CreateFailed,
    OpenForEditFailed,
    OpenPrimaryHduFailed,
    WriteImageFailed,
    WriteHeaderFailed,
}

/// How the pixels of an image are laid out in memory.
#[derive(Debug, Clone, Copy, PartialEq, Eq, Structural)]
pub enum ImageDataLayout {
    /// One channel, no Bayer pattern applied.
    Grayscale,
    /// Interleaved channels: RGBRGB...
    RGB,
    /// Three separate planes: RRR...GGG...BBB...
    RGBPlanar,
}

/// The Bayer pattern of a raw frame and where it starts.
#[derive(Debug, Clone)]
pub struct BayerPattern {
    pub pattern: String,
    pub x_offset: usize,
    pub y_offset: usize,
}

/// The header values the library reads from a frame.
#[derive(Debug, Clone, Copy, PartialEq, Eq, Structural)]
pub enum Tag {
    ImageType,
    BayerPattern,
    ExposureTime,
    Temperature,
    Gain,
    Camera,
    Telescope,
    ObservationDate,
    Filter,
    XBinding,
    YBinding,
    XBayerOffset,
    YBayerOffset,
    NAXIS1,
    NAXIS2,
}

/// The header keys under which a tag may be found, in the order they are tried.
pub open spec fn tag_keys(tag: Tag) -> Seq<Seq<char>> {
    match tag {
        Tag::ImageType => seq!["IMAGETYP"@],
        Tag::BayerPattern => seq!["BAYERPAT"@, "COLORTYP"@],
        Tag::ExposureTime => seq!["EXPTIME"@, "EXPOSURE"@],
        Tag::Temperature => seq!["CCD-TEMP"@, "SET-TEMP"@],
        Tag::Gain => seq!["GAIN"@, "EGAIN"@],
        Tag::Camera => seq!["INSTRUME"@, "CCDNAME"@, "CAMERA"@],
        Tag::Telescope => seq!["TELESCOP"@, "FOCALLEN"@],
        Tag::ObservationDate => seq!["DATE-OBS"@],
        Tag::Filter => seq!["FILTER"@],
        Tag::XBinding => seq!["XBINNING"@],
        Tag::YBinding => seq!["YBINNING"@],
        Tag::XBayerOffset => seq!["XBAYROFF"@],
        Tag::YBayerOffset => seq!["YBAYROFF"@],
        Tag::NAXIS1 => seq!["NAXIS1"@],
        Tag::NAXIS2 => seq!["NAXIS2"@],
    }
}

/// The header keys of `tag`, in the order in which a reader tries them.
pub fn get_tag(tag: Tag) -> (r: &'static [&'static str])
    ensures
        r@.len() == tag_keys(tag).len(),
        forall|i: int| 0 <= i < r@.len() ==> #[trigger] r@[i]@ == tag_keys(tag)[i],
{
    let r: &'static [&'static str] = match tag {
        Tag::ImageType => &["IMAGETYP"],
        Tag::BayerPattern => &["BAYERPAT", "COLORTYP"],
        Tag::ExposureTime => &["EXPTIME", "EXPOSURE"],
        Tag::Temperature => &["CCD-TEMP", "SET-TEMP"],
        Tag::Gain => &["GAIN", "EGAIN"],
        Tag::Camera => &["INSTRUME", "CCDNAME", "CAMERA"],
        Tag::Telescope => &["TELESCOP", "FOCALLEN"],
        Tag::ObservationDate => &["DATE-OBS"],
        Tag::Filter => &["FILTER"],
        Tag::XBinding => &["XBINNING"],
        Tag::YBinding => &["YBINNING"],
        Tag::XBayerOffset => &["XBAYROFF"],
        Tag::YBayerOffset => &["YBAYROFF"],
        Tag::NAXIS1 => &["NAXIS1"],
        Tag::NAXIS2 => &["NAXIS2"],
    };
    r
}

/// The Bayer offset a header gives, with a missing value read as 0 and a
/// negative one counted back from 2 (so -1 means 1).
pub fn normalize_offset(offset: Option<i32>) -> (r: usize)
    ensures
        r == (match offset {
            None => 0usize,
            Some(o) => if o < 0 { (o + 2) as usize } else { o as usize },
        }),
{
    let offset = match offset {
        Some(o) => o,
        None => 0,
    };
    if offset < 0 {
        (offset + 2) as usize
    } else {
        offset as usize
    }
}

} // verus!
