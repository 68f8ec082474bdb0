//! User settings that the library's logic reads.
use vstd::prelude::*;

verus! {

/// Where calibrated light frames are written.
#[derive(Debug, Clone, Copy, PartialEq, Eq, Structural)]
pub enum CalibrationStorageMode {
    /// Beside the original frame, as `<stem>_cal.fits`.
    NextToOriginal,
    /// Into the temporary folder, as `<stem>_<id>_cal.fits`.
    TempFolder,
}

impl Default for CalibrationStorageMode {
    /// Calibrated frames go beside their originals unless the user asks otherwise.
    fn default() -> (r: Self)
        ensures
            r == CalibrationStorageMode::NextToOriginal,
    {
        CalibrationStorageMode::NextToOriginal
    }
}

/// The value of a switch the user has not set: off.
pub fn default_false() -> (r: bool)
    ensures
        !r,
{
    false
}

/// Whether a night prefix is matched at the start or at the end of a folder name.
#[derive(Debug, Clone, Copy, PartialEq, Eq, Structural)]
pub enum Type {
    Prefix,
    Suffix,
}

/// A text that marks the folders of one night.
#[derive(Debug, Clone)]
pub struct NightPrefix {
    pub text: String,
    pub prefix_type: Type,
    pub match_first: bool,
}

} // verus!
