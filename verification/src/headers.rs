//! The header an output frame is given: its image type, then the equipment
//! and Bayer values of the frame it came from, trimmed, in a fixed order.
use vstd::prelude::*;
use crate::files::opt_text;
use crate::fits::Tag;
use crate::text::{append_text, text_of, trim_text, trimmed};

verus! {

/// The header values of a source frame that an output frame carries over. The
/// exposure and gain are floating-point values; only whether the source has
/// them is held here, and the caller copies them.
#[derive(Debug, Clone)]
pub struct SourceHeader {
    pub camera: Option<String>,
    pub telescope: Option<String>,
    pub filter: Option<String>,
    pub has_exposure: bool,
    pub has_gain: bool,
    pub bayer_pattern: Option<String>,
    pub x_bayer_offset: Option<i32>,
    pub y_bayer_offset: Option<i32>,
}

/// One write into an output header.
#[derive(Debug, Clone)]
pub enum HeaderWrite {
    /// Write the text `value` under `key`.
    Text { key: String, value: String },
    /// Write the integer `value` under `key`.
    Int { key: String, value: i32 },
    /// Write under `key` the floating-point value the source frame has for `tag`.
    CopyFloat { key: String, tag: Tag },
}

pub enum WriteView {
    Text { key: Seq<char>, value: Seq<char> },
    Int { key: Seq<char>, value: i32 },
    CopyFloat { key: Seq<char>, tag: Tag },
}

impl View for HeaderWrite {
    type V = WriteView;

    open spec fn view(&self) -> WriteView {
        match self {
            HeaderWrite::Text { key, value } => WriteView::Text { key: key@, value: value@ },
            HeaderWrite::Int { key, value } => WriteView::Int { key: key@, value: *value },
            HeaderWrite::CopyFloat { key, tag } => WriteView::CopyFloat { key: key@, tag: *tag },
        }
    }
}

/// The values of a sequence of writes.
pub open spec fn write_views(s: Seq<HeaderWrite>) -> Seq<WriteView> {
    s.map_values(|w: HeaderWrite| w@)
}

/// The write of a text value, trimmed, when there is one.
pub open spec fn text_write(key: Seq<char>, value: Option<Seq<char>>) -> Seq<WriteView> {
    match value {
        Some(v) => seq![WriteView::Text { key: key, value: trimmed(v) }],
        None => Seq::empty(),
    }
}

/// The write of an integer value, when there is one.
pub open spec fn int_write(key: Seq<char>, value: Option<i32>) -> Seq<WriteView> {
    match value {
        Some(v) => seq![WriteView::Int { key: key, value: v }],
        None => Seq::empty(),
    }
}

/// The copy of a floating-point value, when the source has one.
pub open spec fn float_copy(key: Seq<char>, tag: Tag, present: bool) -> Seq<WriteView> {
    if present {
        seq![WriteView::CopyFloat { key: key, tag: tag }]
    } else {
        Seq::empty()
    }
}

/// The writes that give an output frame of image type `image_type` the
/// header of its source: IMAGETYP, INSTRUME, TELESCOP, FILTER, EXPTIME, GAIN,
/// BAYERPAT, XBAYROFF, YBAYROFF, each but the first only when the source has it.
pub open spec fn header_plan_of(image_type: Seq<char>, h: SourceHeader) -> Seq<WriteView> {
    seq![WriteView::Text { key: "IMAGETYP"@, value: image_type }]
        + text_write("INSTRUME"@, opt_text(h.camera))
        + text_write("TELESCOP"@, opt_text(h.telescope))
        + text_write("FILTER"@, opt_text(h.filter))
        + float_copy("EXPTIME"@, Tag::ExposureTime, h.has_exposure)
        + float_copy("GAIN"@, Tag::Gain, h.has_gain)
        + text_write("BAYERPAT"@, opt_text(h.bayer_pattern))
        + int_write("XBAYROFF"@, h.x_bayer_offset)
        + int_write("YBAYROFF"@, h.y_bayer_offset)
}

fn push_text_write(plan: &mut Vec<HeaderWrite>, key: &str, value: &Option<String>)
    ensures
        write_views(final(plan)@) == write_views(old(plan)@) + text_write(key@, opt_text(*value)),
{
    let ghost before = plan@;
    match value {
        Some(v) => {
            let w = HeaderWrite::Text { key: text_of(key), value: text_of(trim_text(v.as_str())) };
            plan.push(w);
            assert(write_views(plan@) =~= write_views(before) + text_write(key@, opt_text(*value)));
        },
        None => {
            assert(write_views(plan@) =~= write_views(before) + text_write(key@, opt_text(*value)));
        },
    }
}

fn push_int_write(plan: &mut Vec<HeaderWrite>, key: &str, value: Option<i32>)
    ensures
        write_views(final(plan)@) == write_views(old(plan)@) + int_write(key@, value),
{
    let ghost before = plan@;
    match value {
        Some(v) => {
            plan.push(HeaderWrite::Int { key: text_of(key), value: v });
            assert(write_views(plan@) =~= write_views(before) + int_write(key@, value));
        },
        None => {
            assert(write_views(plan@) =~= write_views(before) + int_write(key@, value));
        },
    }
}

fn push_float_copy(plan: &mut Vec<HeaderWrite>, key: &str, tag: Tag, present: bool)
    ensures
        write_views(final(plan)@) == write_views(old(plan)@) + float_copy(key@, tag, present),
{
    let ghost before = plan@;
    if present {
        plan.push(HeaderWrite::CopyFloat { key: text_of(key), tag });
    }
    assert(write_views(plan@) =~= write_views(before) + float_copy(key@, tag, present));
}

/// The writes that give an output frame of image type `image_type` the header
/// of its source.
pub fn header_plan(image_type: &str, source: &SourceHeader) -> (r: Vec<HeaderWrite>)
    ensures
        write_views(r@) == header_plan_of(image_type@, *source),
{
    let mut plan: Vec<HeaderWrite> = Vec::new();
    plan.push(HeaderWrite::Text { key: text_of("IMAGETYP"), value: text_of(image_type) });
    assert(write_views(plan@) =~= seq![WriteView::Text { key: "IMAGETYP"@, value: image_type@ }]);
    push_text_write(&mut plan, "INSTRUME", &source.camera);
    push_text_write(&mut plan, "TELESCOP", &source.telescope);
    push_text_write(&mut plan, "FILTER", &source.filter);
    push_float_copy(&mut plan, "EXPTIME", Tag::ExposureTime, source.has_exposure);
    push_float_copy(&mut plan, "GAIN", Tag::Gain, source.has_gain);
    push_text_write(&mut plan, "BAYERPAT", &source.bayer_pattern);
    push_int_write(&mut plan, "XBAYROFF", source.x_bayer_offset);
    push_int_write(&mut plan, "YBAYROFF", source.y_bayer_offset);
    plan
}

/// The error text when a key cannot be written into a master frame.
pub fn master_write_error(key: &str) -> (r: String)
    ensures
        r@ == "Unable to write "@ + key@ + " into master frame"@,
{
    let mut r = text_of("Unable to write ");
    append_text(&mut r, key);
    append_text(&mut r, " into master frame");
    r
}

} // verus!
