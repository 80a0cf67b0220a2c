//! The few facts about file paths that the library needs, taken from
//! `std::path`. Paths are carried as strings; the standard library decides how
//! they split into components on the target the crate is built for.

use vstd::prelude::*;
use crate::text::opt_view;

verus! {

/// What `Path::extension` gives for a path: the part of the file name after
/// its last `.`, if the file name has a `.` that is not its first character.
pub uninterp spec fn path_extension_of(path: Seq<char>) -> Option<Seq<char>>;

/// What `Path::file_name` gives for a path: its final component, unless the
/// path ends in `..` or has no component.
pub uninterp spec fn path_file_name_of(path: Seq<char>) -> Option<Seq<char>>;

/// What `Path::join` gives for a base path and a relative name.
pub uninterp spec fn path_join_of(base: Seq<char>, name: Seq<char>) -> Seq<char>;

/// Whether two paths are equal as `Path`s, that is, component by component.
pub uninterp spec fn same_path_of(a: Seq<char>, b: Seq<char>) -> bool;

/// Calls `<Path as PartialEq>::eq`, which compares the paths' components;
/// two paths with the same text have the same components.
#[verifier::external_body]
pub(crate) fn same_path(a: &str, b: &str) -> (r: bool)
    ensures
        r == same_path_of(a@, b@),
        a@ == b@ ==> r,
{
    std::path::Path::new(a) == std::path::Path::new(b)
}

/// Calls `Path::extension` on `path`. The result is a function of the path's
/// characters alone; `to_str` cannot fail because the path came from a `str`.
#[verifier::external_body]
pub(crate) fn path_extension(path: &str) -> (r: Option<String>)
    ensures
        opt_view(r) == path_extension_of(path@),
{
    std::path::Path::new(path).extension().and_then(|e| e.to_str()).map(|e| e.to_string())
}

/// Calls `Path::file_name` on `path`; a function of the path's characters.
#[verifier::external_body]
pub(crate) fn path_file_name(path: &str) -> (r: Option<String>)
    ensures
        opt_view(r) == path_file_name_of(path@),
{
    std::path::Path::new(path).file_name().and_then(|n| n.to_str()).map(|n| n.to_string())
}

/// Calls `Path::join`; the result is a function of both arguments.
#[verifier::external_body]
pub(crate) fn path_join(base: &str, name: &str) -> (r: String)
    ensures
        r@ == path_join_of(base@, name@),
{
    std::path::Path::new(base).join(name).to_string_lossy().into_owned()
}

} // verus!
