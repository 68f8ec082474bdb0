//! The decisions of a folder scan: which files it takes, and when it reports
//! how many it has seen.
use vstd::prelude::*;
use crate::paths::{extension_of, path_extension};
use crate::session_order::text_views;
use crate::text::text_equal;

verus! {

/// Whether the path's extension is one of `extensions`; a path without an
/// extension is never taken.
pub open spec fn extension_listed(path: Seq<char>, extensions: Seq<Seq<char>>) -> bool {
    match extension_of(path) {
        Some(e) => extensions.contains(e),
        None => false,
    }
}

/// Whether a scan takes the file at `path`, given the extensions asked for.
pub fn has_listed_extension(path: &str, extensions: &Vec<String>) -> (r: bool)
    ensures
        r == extension_listed(path@, text_views(extensions@)),
{
    let ext = match path_extension(path) {
        Some(e) => e,
        None => return false,
    };
    let ghost tv = text_views(extensions@);
    let mut k: usize = 0;
    while k < extensions.len()
        invariant
            k <= extensions.len(),
            tv == text_views(extensions@),
            tv.len() == extensions.len(),
            extension_of(path@) == Some(ext@),
            forall|j: int| 0 <= j < k ==> tv[j] != ext@,
        decreases extensions.len() - k,
    {
        if text_equal(extensions[k].as_str(), ext.as_str()) {
            assert(tv[k as int] == ext@);
            return true;
        }
        k = k + 1;
    }
    false
}

/// How often a scan reports how many files it has taken.
pub const SCAN_REPORT_EVERY: usize = 50;

/// Whether a scan reports its count once it has taken `count` files: at every
/// multiple of fifty.
pub fn scan_count_reported(count: usize) -> (r: bool)
    ensures
        r == (count % 50 == 0),
{
    count % SCAN_REPORT_EVERY == 0
}

} // verus!
