//! Paths as text. The parts of a path are taken by `std::path`; what is claimed
//! of each call stands with it. A part of a path that is text is text, so that
//! nothing is lost where a part is handed back as a string.

use vstd::prelude::*;
use std::path::Path;

verus! {

/// The final component of a path, as `std::path::Path::file_name` gives it: none
/// where the path ends in `..` or has no component.
pub uninterp spec fn file_name_of(path: Seq<char>) -> Option<Seq<char>>;

/// The final component of a path without its extension, as
/// `std::path::Path::file_stem` gives it.
pub uninterp spec fn file_stem_of(path: Seq<char>) -> Option<Seq<char>>;

/// The extension of the final component of a path, as
/// `std::path::Path::extension` gives it.
pub uninterp spec fn extension_of(path: Seq<char>) -> Option<Seq<char>>;

/// Whether the components of `base` are the first components of `path`, as
/// `std::path::Path::starts_with` says.
pub uninterp spec fn path_begins(path: Seq<char>, base: Seq<char>) -> bool;

/// The path `dir` with `name` adjoined, as `std::path::Path::join` gives it.
pub uninterp spec fn joined(dir: Seq<char>, name: Seq<char>) -> Seq<char>;

/// `std::path::Path::file_name` on a path that is text: the final component of
/// the path, which depends on the text alone.
#[verifier::external_body]
pub(crate) fn file_name(path: &str) -> (r: Option<String>)
    ensures
        r matches Some(name) ==> file_name_of(path@) == Some(name@),
        r is None ==> file_name_of(path@) is None,
{
    match Path::new(path).file_name() {
        Some(name) => Some(name.to_string_lossy().into_owned()),
        None => None,
    }
}

/// `std::path::Path::file_stem` on a path that is text: the final component
/// without its extension, which depends on the text alone.
#[verifier::external_body]
pub(crate) fn file_stem(path: &str) -> (r: Option<String>)
    ensures
        r matches Some(stem) ==> file_stem_of(path@) == Some(stem@),
        r is None ==> file_stem_of(path@) is None,
{
    match Path::new(path).file_stem() {
        Some(stem) => Some(stem.to_string_lossy().into_owned()),
        None => None,
    }
}

/// `std::path::Path::extension` on a path that is text: the extension of the
/// final component, which depends on the text alone.
#[verifier::external_body]
pub(crate) fn extension(path: &str) -> (r: Option<String>)
    ensures
        r matches Some(ext) ==> extension_of(path@) == Some(ext@),
        r is None ==> extension_of(path@) is None,
{
    match Path::new(path).extension() {
        Some(ext) => Some(ext.to_string_lossy().into_owned()),
        None => None,
    }
}

/// `std::path::Path::starts_with` on paths that are text: whether `base` is a
/// prefix of `path`, whole components only.
#[verifier::external_body]
pub(crate) fn starts_with(path: &str, base: &str) -> (r: bool)
    ensures
        r == path_begins(path@, base@),
{
    Path::new(path).starts_with(base)
}

/// `std::path::Path::join` on paths that are text: `dir` with `name` adjoined.
#[verifier::external_body]
pub(crate) fn join(dir: &str, name: &str) -> (r: String)
    ensures
        r@ == joined(dir@, name@),
{
    Path::new(dir).join(name).to_string_lossy().into_owned()
}

} // verus!
