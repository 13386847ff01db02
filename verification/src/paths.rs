//! The parts of a path that the library reads: std's `Path` decides them.

use vstd::prelude::*;

verus! {

/// The stem of the file name of path `p` (what `Path::file_stem` returns).
pub uninterp spec fn path_file_stem(p: Seq<char>) -> Option<Seq<char>>;

/// The extension of the file name of path `p` (what `Path::extension` returns).
pub uninterp spec fn path_extension(p: Seq<char>) -> Option<Seq<char>>;

/// The prefix of the file name of path `p` (what `Path::file_prefix` returns).
pub uninterp spec fn path_file_prefix(p: Seq<char>) -> Option<Seq<char>>;

/// Calls `Path::file_stem` on `p`; the answer is a function of the path text.
/// A path given as `&str` is valid UTF-8, and so is each of its parts.
#[verifier::external_body]
pub(crate) fn file_stem(p: &str) -> (r: Option<String>)
    ensures
        crate::normalize::opt_view(r) == path_file_stem(p@),
{
    match std::path::Path::new(p).file_stem() {
        Some(s) => Some(s.to_string_lossy().into_owned()),
        None => None,
    }
}

/// Calls `Path::extension` on `p`; the answer is a function of the path text.
#[verifier::external_body]
pub(crate) fn extension(p: &str) -> (r: Option<String>)
    ensures
        crate::normalize::opt_view(r) == path_extension(p@),
{
    match std::path::Path::new(p).extension() {
        Some(s) => Some(s.to_string_lossy().into_owned()),
        None => None,
    }
}

/// Calls `Path::file_prefix` on `p`; the answer is a function of the path text.
#[verifier::external_body]
pub(crate) fn file_prefix(p: &str) -> (r: Option<String>)
    ensures
        crate::normalize::opt_view(r) == path_file_prefix(p@),
{
    match std::path::Path::new(p).file_prefix() {
        Some(s) => Some(s.to_string_lossy().into_owned()),
        None => None,
    }
}

} // verus!
