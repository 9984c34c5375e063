//! Names taken from slash-separated paths.
use vstd::prelude::*;

verus! {

/// The final component of a path, as the platform's path rules give it.
pub uninterp spec fn file_name_of(path: Seq<char>) -> Option<Seq<char>>;

/// The path without its final component, as the platform's path rules give it.
pub uninterp spec fn parent_of(path: Seq<char>) -> Option<Seq<char>>;

/// The view of an optional string.
pub open spec fn opt_view(s: Option<String>) -> Option<Seq<char>> {
    match s {
        Some(t) => Some(t@),
        None => None,
    }
}

/// Relies on std::path::Path::file_name: the final component of the path, or
/// `None` where the path ends in `..` or is a root. A component of a `str` is
/// itself valid UTF-8, so the conversion back to a string always succeeds.
#[verifier::external_body]
pub(crate) fn path_file_name(path: &str) -> (r: Option<String>)
    ensures
        opt_view(r) == file_name_of(path@),
{
    let name = std::path::Path::new(path).file_name()?;
    Some(name.to_str()?.to_string())
}

/// Relies on std::path::Path::parent: the path without its final component, or
/// `None` where the path is a root or empty.
#[verifier::external_body]
pub(crate) fn path_parent(path: &str) -> (r: Option<String>)
    ensures
        opt_view(r) == parent_of(path@),
{
    let parent = std::path::Path::new(path).parent()?;
    Some(parent.to_str()?.to_string())
}

/// The final component of `path`, if it has one.
pub fn get_file_name(path: &str) -> (r: Option<String>)
    ensures
        opt_view(r) == file_name_of(path@),
{
    path_file_name(path)
}

} // verus!
