//! The decisions around stacking master frames and checking calibrated
//! output: how frames are combined, when they may be combined at all, and
//! when an existing output can be kept.
use vstd::prelude::*;
use crate::calibration::{MasterType, master_file_word};
use crate::fits::ImageDataLayout;
use crate::pixels::ImageGeometry;
use crate::text::{append_text, text_of};

verus! {

/// How the frames of a master are combined, pixel by pixel.
#[derive(Debug, Clone, Copy, PartialEq, Eq, Structural)]
pub enum StackMethod {
    /// The median of the frames' values.
    Median,
    /// The mean of the values within three standard deviations of the mean.
    SigmaClippedMean,
}

/// Flats and biases, and any master from fewer than six frames, take the
/// median; darks from six frames or more take the sigma-clipped mean.
pub open spec fn stack_method_of(t: MasterType, frame_count: int) -> StackMethod {
    if t == MasterType::Flat || t == MasterType::Bias || frame_count < 6 {
        StackMethod::Median
    } else {
        StackMethod::SigmaClippedMean
    }
}

/// How the frames of a master of this type are combined.
pub fn stack_method(master_type: MasterType, frame_count: usize) -> (r: StackMethod)
    ensures
        r == stack_method_of(master_type, frame_count as int),
{
    if master_type == MasterType::Flat || master_type == MasterType::Bias || frame_count < 6 {
        StackMethod::Median
    } else {
        StackMethod::SigmaClippedMean
    }
}

/// The error for a master asked of no frames.
pub fn empty_stack_error(master_type: MasterType) -> (r: String)
    ensures
        r@ == "Cannot produce master "@ + master_file_word(master_type) + " from empty frame list"@,
{
    let mut r = text_of("Cannot produce master ");
    append_text(&mut r, master_type.as_file_name_part());
    append_text(&mut r, " from empty frame list");
    r
}

/// The error for a master whose frames differ in shape.
pub fn incompatible_stack_error(master_type: MasterType) -> (r: String)
    ensures
        r@ == "Incompatible frame dimensions/layout while building master "@ + master_file_word(master_type),
{
    let mut r = text_of("Incompatible frame dimensions/layout while building master ");
    append_text(&mut r, master_type.as_file_name_part());
    r
}

/// Whether a frame can be stacked with the first one: same width, height,
/// depth, layout and number of values.
pub fn frame_matches_first(first: &ImageGeometry, first_len: usize, other: &ImageGeometry, other_len: usize) -> (r:
    bool)
    ensures
        r == (first.width == other.width && first.height == other.height && first.depth == other.depth
            && first.layout == other.layout && first_len == other_len),
{
    first.width == other.width && first.height == other.height && first.depth == other.depth
        && layouts_equal(first.layout, other.layout) && first_len == other_len
}

fn layouts_equal(a: ImageDataLayout, b: ImageDataLayout) -> (r: bool)
    ensures
        r == (a == b),
{
    match (a, b) {
        (ImageDataLayout::Grayscale, ImageDataLayout::Grayscale) => true,
        (ImageDataLayout::RGB, ImageDataLayout::RGB) => true,
        (ImageDataLayout::RGBPlanar, ImageDataLayout::RGBPlanar) => true,
        _ => false,
    }
}

/// Refuses a temporary folder that does not exist or is not a directory.
pub fn check_temp_folder(path: &str, exists: bool, is_dir: bool) -> (r: Result<(), String>)
    ensures
        !exists ==> (r matches Err(e) && e@ == "Temp folder for master frames does not exist: "@ + path@),
        exists && !is_dir ==> (r matches Err(e) && e@ == "Temp folder path is not a directory: "@ + path@),
        exists && is_dir ==> r is Ok,
{
    if !exists {
        let mut e = text_of("Temp folder for master frames does not exist: ");
        append_text(&mut e, path);
        return Err(e);
    }
    if !is_dir {
        let mut e = text_of("Temp folder path is not a directory: ");
        append_text(&mut e, path);
        return Err(e);
    }
    Ok(())
}

/// The smallest FITS file: one header block.
pub const FITS_BLOCK_BYTES: u64 = 2880;

/// Whether an existing calibrated file is large enough to hold a header; a
/// file whose size cannot be read is not.
pub fn output_size_acceptable(file_len: Option<u64>) -> (r: bool)
    ensures
        r == (match file_len {
            Some(n) => n >= 2880,
            None => false,
        }),
{
    match file_len {
        Some(n) => n >= FITS_BLOCK_BYTES,
        None => false,
    }
}

/// Whether a calibrated frame has the width and height (NAXIS1, NAXIS2) of its
/// source, a missing value read as 0.
pub fn dimensions_agree(
    source_width: Option<i32>,
    source_height: Option<i32>,
    calibrated_width: Option<i32>,
    calibrated_height: Option<i32>,
) -> (r: bool)
    ensures
        r == (source_width.unwrap_or(0) == calibrated_width.unwrap_or(0) && source_height.unwrap_or(0)
            == calibrated_height.unwrap_or(0)),
{
    source_width.unwrap_or(0) == calibrated_width.unwrap_or(0) && source_height.unwrap_or(0)
        == calibrated_height.unwrap_or(0)
}

} // verus!
