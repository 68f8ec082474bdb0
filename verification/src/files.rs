//! Frames as the user picked them: where they are, what they are, and how
//! far they have been processed.
use vstd::prelude::*;
use crate::fits::{FileType, FrameState};
use crate::paths::{file_name_of, path_file_name};
use crate::text::{ascii_lowercase, is_ascii_text, lowercase_of, lowercase_text, text_equal};

verus! {

/// A picked frame.
#[derive(Debug, Clone)]
pub struct File {
    pub path: String,
    pub name: String,
    pub file_type: FileType,
    /// A stable identity of the frame; master frames are cached under the identities
    /// of the frames they were stacked from.
    pub uuid: String,
    /// Where the calibrated copy of this frame was written, once it was.
    pub calibrated_frame: Option<String>,
    pub state: FrameState,
}

/// A frame as a value.
#[verifier::ext_equal]
pub struct FileView {
    pub path: Seq<char>,
    pub name: Seq<char>,
    pub file_type: FileType,
    pub uuid: Seq<char>,
    pub calibrated_frame: Option<Seq<char>>,
    pub state: FrameState,
}

/// The characters of an optional text.
pub open spec fn opt_text(o: Option<String>) -> Option<Seq<char>> {
    match o {
        Some(s) => Some(s@),
        None => None,
    }
}

/// A copy of an optional text.
pub fn copy_opt_text(o: &Option<String>) -> (r: Option<String>)
    ensures
        opt_text(r) == opt_text(*o),
{
    match o {
        Some(s) => Some(s.clone()),
        None => None,
    }
}

impl View for File {
    type V = FileView;

    open spec fn view(&self) -> FileView {
        FileView {
            path: self.path@,
            name: self.name@,
            file_type: self.file_type,
            uuid: self.uuid@,
            calibrated_frame: opt_text(self.calibrated_frame),
            state: self.state,
        }
    }
}

/// A light frame with empty path, name and identity, not calibrated.
pub open spec fn blank_file() -> FileView {
    FileView {
        path: Seq::empty(),
        name: Seq::empty(),
        file_type: FileType::Light,
        uuid: Seq::empty(),
        calibrated_frame: None,
        state: FrameState::Default,
    }
}

/// The values of a sequence of frames.
pub open spec fn file_views(s: Seq<File>) -> Seq<FileView> {
    s.map_values(|f: File| f@)
}

impl File {
    /// A frame that has not been calibrated or graded yet.
    pub fn new(path: String, name: String, file_type: FileType, uuid: String) -> (r: File)
        ensures
            r@ == (FileView {
                path: path@,
                name: name@,
                file_type,
                uuid: uuid@,
                calibrated_frame: None,
                state: FrameState::Default,
            }),
    {
        File { path, name, file_type, uuid, calibrated_frame: None, state: FrameState::Default }
    }

    pub fn path(&self) -> (r: &String)
        ensures
            r@ == self.path@,
    {
        &self.path
    }

    pub fn file_type(&self) -> (r: &FileType)
        ensures
            *r == self.file_type,
    {
        &self.file_type
    }

    pub fn uuid(&self) -> (r: &String)
        ensures
            r@ == self.uuid@,
    {
        &self.uuid
    }

    /// An equal, independent copy of this frame.
    pub fn duplicate(&self) -> (r: File)
        ensures
            r@ == self@,
    {
        File {
            path: self.path.clone(),
            name: self.name.clone(),
            file_type: self.file_type,
            uuid: self.uuid.clone(),
            calibrated_frame: copy_opt_text(&self.calibrated_frame),
            state: self.state,
        }
    }
}

/// Independent copies of the frames `v`.
pub fn duplicate_files(v: &Vec<File>) -> (r: Vec<File>)
    ensures
        file_views(r@) == file_views(v@),
{
    let mut r: Vec<File> = Vec::new();
    let mut i: usize = 0;
    while i < v.len()
        invariant
            i <= v.len(),
            r@.len() == i,
            forall|j: int| 0 <= j < i ==> #[trigger] r@[j]@ == v@[j]@,
        decreases v.len() - i,
    {
        r.push(v[i].duplicate());
        i = i + 1;
    }
    assert(file_views(r@) =~= file_views(v@));
    r
}

/// The frame type that a lower-cased IMAGETYP header value names; a value that
/// names no type is read as a light frame.
pub open spec fn file_type_named(lowered: Seq<char>) -> FileType {
    if lowered == "light"@ || lowered == "master light"@ {
        FileType::Light
    } else if lowered == "dark"@ {
        FileType::Dark
    } else if lowered == "flat"@ {
        FileType::Flat
    } else if lowered == "bias"@ {
        FileType::Bias
    } else if lowered == "master dark"@ {
        FileType::MasterDark
    } else if lowered == "master flat"@ {
        FileType::MasterFlat
    } else if lowered == "master bias"@ {
        FileType::MasterBias
    } else {
        FileType::Light
    }
}

/// The frame type that a lower-cased IMAGETYP header value names.
pub fn file_type_from_lowercase(lowered: &str) -> (r: FileType)
    ensures
        r == file_type_named(lowered@),
{
    if text_equal(lowered, "light") || text_equal(lowered, "master light") {
        FileType::Light
    } else if text_equal(lowered, "dark") {
        FileType::Dark
    } else if text_equal(lowered, "flat") {
        FileType::Flat
    } else if text_equal(lowered, "bias") {
        FileType::Bias
    } else if text_equal(lowered, "master dark") {
        FileType::MasterDark
    } else if text_equal(lowered, "master flat") {
        FileType::MasterFlat
    } else if text_equal(lowered, "master bias") {
        FileType::MasterBias
    } else {
        FileType::Light
    }
}

/// The frame type that an IMAGETYP header value gives, compared without regard
/// to case; a missing header reads as a light frame.
pub fn file_type_from_image_type(value: Option<&str>) -> (r: FileType)
    ensures
        r == (match value {
            Some(v) => file_type_named(lowercase_of(v@)),
            None => FileType::Light,
        }),
        value matches Some(v) ==> (is_ascii_text(v@) ==> r == file_type_named(ascii_lowercase(v@))),
{
    match value {
        Some(v) => {
            let lowered = lowercase_text(v);
            file_type_from_lowercase(lowered.as_str())
        },
        None => FileType::Light,
    }
}

/// The frame found at `path` whose IMAGETYP header reads `image_type`; its
/// name is the last component of the path.
pub fn file_from_header(path: String, image_type: Option<&str>, uuid: String) -> (r: File)
    ensures
        r@.path == path@,
        r@.name == (match file_name_of(path@) {
            Some(n) => n,
            None => Seq::<char>::empty(),
        }),
        r@.file_type == (match image_type {
            Some(v) => file_type_named(lowercase_of(v@)),
            None => FileType::Light,
        }),
        image_type matches Some(v) ==> (is_ascii_text(v@) ==> r@.file_type == file_type_named(
            ascii_lowercase(v@),
        )),
        r@.uuid == uuid@,
        r@.calibrated_frame is None,
        r@.state == FrameState::Default,
{
    let file_type = file_type_from_image_type(image_type);
    let name = match path_file_name(path.as_str()) {
        Some(n) => n,
        None => String::new(),
    };
    File::new(path, name, file_type, uuid)
}

} // verus!
