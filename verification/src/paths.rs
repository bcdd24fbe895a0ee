//! Names for what `std::path::Path` computes from a path string, and the calls that
//! compute them.  Paths are handled as strings; the component rules of `Path` are
//! std's, so their results are named here rather than restated.

use std::path::Path;
use vstd::prelude::*;

verus! {

/// What `Path::file_name` gives for a path.
pub uninterp spec fn path_file_name(path: Seq<char>) -> Option<Seq<char>>;

/// What `Path::file_stem` gives for a path.
pub uninterp spec fn path_file_stem(path: Seq<char>) -> Option<Seq<char>>;

/// What `Path::extension` gives for a path.
pub uninterp spec fn path_extension(path: Seq<char>) -> Option<Seq<char>>;

/// What `Path::parent` gives for a path.
pub uninterp spec fn path_parent(path: Seq<char>) -> Option<Seq<char>>;

/// What `Path::starts_with` gives: whether `base` is a prefix of `path`, counted in
/// whole path components.
pub uninterp spec fn path_starts_with(path: Seq<char>, base: Seq<char>) -> bool;

/// `Path::new(path).file_name()` as a string.  The contract claims that the result is
/// the named `path_file_name` of the path; a file name taken from a `&str` is always
/// valid UTF-8, so the conversion back to a string does not fail.
#[verifier::external_body]
pub(crate) fn file_name(path: &str) -> (r: Option<String>)
    ensures
        match r {
            Some(n) => path_file_name(path@) == Some(n@),
            None => path_file_name(path@) is None,
        },
{
    Path::new(path).file_name().and_then(|n| n.to_str()).map(|n| n.to_string())
}

/// `Path::new(path).file_stem()` as a string; the contract claims that it is the named
/// `path_file_stem` of the path.
#[verifier::external_body]
pub(crate) fn file_stem(path: &str) -> (r: Option<String>)
    ensures
        match r {
            Some(n) => path_file_stem(path@) == Some(n@),
            None => path_file_stem(path@) is None,
        },
{
    Path::new(path).file_stem().and_then(|n| n.to_str()).map(|n| n.to_string())
}

/// `Path::new(path).extension()` as a string; the contract claims that it is the named
/// `path_extension` of the path.
#[verifier::external_body]
pub(crate) fn extension(path: &str) -> (r: Option<String>)
    ensures
        match r {
            Some(n) => path_extension(path@) == Some(n@),
            None => path_extension(path@) is None,
        },
{
    Path::new(path).extension().and_then(|n| n.to_str()).map(|n| n.to_string())
}

/// `Path::new(path).parent()` as a string (`to_string_lossy` of a path made from a
/// `&str` is exact); the contract claims that it is the named `path_parent`.
#[verifier::external_body]
pub(crate) fn parent(path: &str) -> (r: Option<String>)
    ensures
        match r {
            Some(n) => path_parent(path@) == Some(n@),
            None => path_parent(path@) is None,
        },
{
    Path::new(path).parent().map(|p| p.to_string_lossy().to_string())
}

/// `Path::new(path).starts_with(base)`; the contract claims that it is the named
/// `path_starts_with` of the two paths.
#[verifier::external_body]
pub(crate) fn starts_with(path: &str, base: &str) -> (r: bool)
    ensures
        r == path_starts_with(path@, base@),
{
    Path::new(path).starts_with(base)
}

/// That `is_dir` is what asking the file system whether `path` names an existing
/// directory answered.  Nothing else is known of it: the answer depends on the file
/// system at the time of the call.
pub uninterp spec fn dir_answer(path: Seq<char>, is_dir: bool) -> bool;

/// `Path::new(path).is_dir()`: whether the path names an existing directory at the
/// moment of the call.  The contract records only which path was asked about; the
/// answer depends on the file system, so nothing is claimed of its value.
#[verifier::external_body]
pub(crate) fn is_existing_dir(path: &str) -> (r: bool)
    ensures
        dir_answer(path@, r),
{
    Path::new(path).is_dir()
}

} // verus!
