//! File-system paths held as text, and the parts of `std::path` the library
//! uses on them.
//!
//! How `std::path` splits a path into components depends on the target the
//! crate is built for (a backslash separates components on Windows and is an
//! ordinary character on Unix), so the names below for what `Path::file_name`,
//! `Path::join` and `Path::with_file_name` give are functions of their
//! arguments within one build; they may differ between builds for different
//! targets.
use vstd::prelude::*;
use crate::text::{append_text, chars_of, push_char, string_of_chars, string_of_range};

verus! {

/// What `Path::file_name` gives for the path `p`: its last normal component, if any.
pub uninterp spec fn file_name_of(p: Seq<char>) -> Option<Seq<char>>;

/// The index of the last dot in the file name `n`, or -1 when it has none.
pub open spec fn last_dot(n: Seq<char>) -> int
    decreases n.len(),
{
    if n.len() == 0 {
        -1
    } else if n.last() == '.' {
        n.len() - 1
    } else {
        last_dot(n.drop_last())
    }
}

/// The stem of the file name `n`: the whole name when it is `..`, has no dot,
/// or has its only dot in front; otherwise what comes before its last dot.
pub open spec fn stem_of_name(n: Seq<char>) -> Seq<char> {
    if n == seq!['.', '.'] || last_dot(n) <= 0 {
        n
    } else {
        n.subrange(0, last_dot(n))
    }
}

/// The extension of the file name `n`: none when it is `..`, has no dot, or has
/// its only dot in front; otherwise what follows its last dot.
pub open spec fn extension_of_name(n: Seq<char>) -> Option<Seq<char>> {
    if n == seq!['.', '.'] || last_dot(n) <= 0 {
        None
    } else {
        Some(n.subrange(last_dot(n) + 1, n.len() as int))
    }
}

/// What `Path::file_stem` gives for the path `p`: the stem of its file name.
pub open spec fn file_stem_of(p: Seq<char>) -> Option<Seq<char>> {
    match file_name_of(p) {
        Some(n) => Some(stem_of_name(n)),
        None => None,
    }
}

/// What `Path::extension` gives for the path `p`: the extension of its file name.
pub open spec fn extension_of(p: Seq<char>) -> Option<Seq<char>> {
    match file_name_of(p) {
        Some(n) => extension_of_name(n),
        None => None,
    }
}

/// What `Path::join` gives for the directory `dir` and the relative path `name`.
pub uninterp spec fn joined_path(dir: Seq<char>, name: Seq<char>) -> Seq<char>;

/// What `Path::with_file_name` gives for the path `p` and the file name `name`.
pub uninterp spec fn with_file_name_of(p: Seq<char>, name: Seq<char>) -> Seq<char>;

/// `Path::file_name`, as text.
#[verifier::external_body]
pub(crate) fn path_file_name(p: &str) -> (r: Option<String>)
    ensures
        match r {
            Some(s) => file_name_of(p@) == Some(s@),
            None => file_name_of(p@) is None,
        },
{
    std::path::Path::new(p).file_name().map(|n| n.to_string_lossy().into_owned())
}

/// Where the last dot of the file name `cs` stands: `Some(i)` when it is at
/// index `i`, `None` when the name has no dot.
fn last_dot_index(cs: &Vec<char>) -> (r: Option<usize>)
    ensures
        match r {
            Some(i) => last_dot(cs@) == i && i < cs.len(),
            None => last_dot(cs@) == -1,
        },
{
    let mut k: usize = cs.len();
    assert(cs@.take(k as int) =~= cs@);
    while k > 0
        invariant
            k <= cs.len(),
            last_dot(cs@) == last_dot(cs@.take(k as int)),
        decreases k,
    {
        assert(cs@.take(k as int).last() == cs@[k - 1]);
        if cs[k - 1] == '.' {
            return Some(k - 1);
        }
        assert(cs@.take(k as int).drop_last() =~= cs@.take(k - 1));
        k = k - 1;
    }
    assert(cs@.take(0) =~= Seq::<char>::empty());
    None
}

/// Whether the file name `cs` is `..`.
fn is_parent_name(cs: &Vec<char>) -> (r: bool)
    ensures
        r == (cs@ == seq!['.', '.']),
{
    let r = cs.len() == 2 && cs[0] == '.' && cs[1] == '.';
    if r {
        assert(cs@ =~= seq!['.', '.']);
    }
    r
}

/// What `Path::file_stem` gives: the stem of the file name, if there is one.
pub(crate) fn path_file_stem(p: &str) -> (r: Option<String>)
    ensures
        match r {
            Some(s) => file_stem_of(p@) == Some(s@),
            None => file_stem_of(p@) is None,
        },
{
    let name = path_file_name(p)?;
    let cs = chars_of(name.as_str());
    if is_parent_name(&cs) {
        return Some(name);
    }
    match last_dot_index(&cs) {
        Some(d) => {
            if d == 0 {
                Some(name)
            } else {
                Some(string_of_range(&cs, 0, d))
            }
        },
        None => Some(name),
    }
}

/// What `Path::extension` gives: the extension of the file name, if there is one.
pub(crate) fn path_extension(p: &str) -> (r: Option<String>)
    ensures
        match r {
            Some(s) => extension_of(p@) == Some(s@),
            None => extension_of(p@) is None,
        },
{
    let name = path_file_name(p)?;
    let cs = chars_of(name.as_str());
    if is_parent_name(&cs) {
        return None;
    }
    match last_dot_index(&cs) {
        Some(d) => {
            if d == 0 {
                None
            } else {
                Some(string_of_range(&cs, d + 1, cs.len()))
            }
        },
        None => None,
    }
}

/// `Path::join`, as text.
#[verifier::external_body]
pub(crate) fn path_join(dir: &str, name: &str) -> (r: String)
    ensures
        r@ == joined_path(dir@, name@),
{
    std::path::Path::new(dir).join(name).to_string_lossy().into_owned()
}

/// `Path::with_file_name`, as text.
#[verifier::external_body]
pub(crate) fn path_with_file_name(p: &str, name: &str) -> (r: String)
    ensures
        r@ == with_file_name_of(p@, name@),
{
    std::path::Path::new(p).with_file_name(name).to_string_lossy().into_owned()
}

/// The error text for a path without a file name.
pub open spec fn no_file_name_message(p: Seq<char>) -> Seq<char> {
    "Path has no file name: "@ + p
}

/// The last component of `path`, or an error naming the path when it has none.
pub fn path_name(path: &str) -> (r: Result<String, String>)
    ensures
        match r {
            Ok(name) => file_name_of(path@) == Some(name@),
            Err(msg) => file_name_of(path@) is None && msg@ == no_file_name_message(path@),
        },
{
    match path_file_name(path) {
        Some(name) => Ok(name),
        None => {
            let mut msg = String::new();
            append_text(&mut msg, "Path has no file name: ");
            append_text(&mut msg, path);
            Err(msg)
        },
    }
}

/// Where a file lands when it is moved into `target_directory`: that directory
/// joined with the file's name.
pub fn build_move_target(target_directory: &str, source_path: &str) -> (r: Result<String, String>)
    ensures
        match r {
            Ok(target) => file_name_of(source_path@) is Some && target@ == joined_path(
                target_directory@,
                file_name_of(source_path@)->0,
            ),
            Err(msg) => file_name_of(source_path@) is None && msg@ == no_file_name_message(
                source_path@,
            ),
        },
{
    let name = path_name(source_path)?;
    Ok(path_join(target_directory, name.as_str()))
}

/// The stem of a path, or "out" when it has none.
pub fn strip_ext(p: &str) -> (r: String)
    ensures
        r@ == (match file_stem_of(p@) {
            Some(stem) => stem,
            None => "out"@,
        }),
{
    match path_file_stem(p) {
        Some(stem) => stem,
        None => {
            let mut s = String::new();
            append_text(&mut s, "out");
            s
        },
    }
}

/// `path` with every backslash turned into a slash.
pub open spec fn forward_slashes(path: Seq<char>) -> Seq<char> {
    path.map_values(|c: char| if c == '\\' { '/' } else { c })
}

/// `s` without its trailing slashes.
pub open spec fn trim_trailing_slashes(s: Seq<char>) -> Seq<char>
    decreases s.len(),
{
    if s.len() > 0 && s.last() == '/' {
        trim_trailing_slashes(s.drop_last())
    } else {
        s
    }
}

/// The key under which a path is looked up: slashes for backslashes, and, when
/// the result is longer than one character and ends in a slash, all its
/// trailing slashes removed.
pub open spec fn normalized_path(path: Seq<char>) -> Seq<char> {
    let s = forward_slashes(path);
    if s.len() > 1 && s.last() == '/' {
        trim_trailing_slashes(s)
    } else {
        s
    }
}

/// A uniform text for a path: slashes for backslashes, no trailing slash.
pub fn normalize_path(p: &str) -> (r: String)
    ensures
        r@ == normalized_path(p@),
{
    let cs = chars_of(p);
    let mut out: Vec<char> = Vec::new();
    let mut i: usize = 0;
    while i < cs.len()
        invariant
            i <= cs.len(),
            cs@ == p@,
            out@ =~= forward_slashes(cs@.take(i as int)),
        decreases cs.len() - i,
    {
        let c = cs[i];
        if c == '\\' {
            out.push('/');
        } else {
            out.push(c);
        }
        i = i + 1;
    }
    assert(cs@.take(cs.len() as int) =~= cs@);
    if out.len() > 1 && out[out.len() - 1] == '/' {
        let ghost full = out@;
        while out.len() > 0 && out[out.len() - 1] == '/'
            invariant
                trim_trailing_slashes(out@) == trim_trailing_slashes(full),
            decreases out.len(),
        {
            let ghost before = out@;
            out.pop();
            assert(out@ =~= before.drop_last());
        }
    }
    string_of_chars(&out)
}

} // verus!
