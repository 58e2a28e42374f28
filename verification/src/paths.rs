//! Path operations on paths held as strings.
//!
//! Each operation is the one of `std::path::Path`; what it returns is named
//! by a specification function, since the component rules of `Path` take
//! pages to state. The rules are those of the platform the library is built
//! for, fixed when it is compiled.
use vstd::prelude::*;
use crate::text::opt_view;

verus! {

/// What `Path::extension` returns for a path.
pub uninterp spec fn spec_path_extension(p: Seq<char>) -> Option<Seq<char>>;

/// What `Path::parent` returns for a path.
pub uninterp spec fn spec_path_parent(p: Seq<char>) -> Option<Seq<char>>;

/// What `Path::file_name` returns for a path.
pub uninterp spec fn spec_path_file_name(p: Seq<char>) -> Option<Seq<char>>;

/// What `Path::strip_prefix` returns for a path and a base.
pub uninterp spec fn spec_path_strip_prefix(p: Seq<char>, base: Seq<char>) -> Option<Seq<char>>;

/// Whether `Path`'s equality holds between two paths.
pub uninterp spec fn spec_path_eq(a: Seq<char>, b: Seq<char>) -> bool;

/// The paths that `Path::ancestors` yields for a path, in order.
pub uninterp spec fn spec_path_ancestors(p: Seq<char>) -> Seq<Seq<char>>;

/// The extension of the final component of `p`.
///
/// Trusted: calls `Path::extension`; its result is named
/// `spec_path_extension`.
#[verifier::external_body]
pub(crate) fn path_extension(p: &str) -> (r: Option<String>)
    ensures
        opt_view(r) == spec_path_extension(p@),
{
    std::path::Path::new(p).extension().map(|e| e.to_string_lossy().into_owned())
}

/// `p` without its final component.
///
/// Trusted: calls `Path::parent`; its result is named `spec_path_parent`.
#[verifier::external_body]
pub(crate) fn path_parent(p: &str) -> (r: Option<String>)
    ensures
        opt_view(r) == spec_path_parent(p@),
{
    std::path::Path::new(p).parent().map(|q| q.to_string_lossy().into_owned())
}

/// The final component of `p`.
///
/// Trusted: calls `Path::file_name`; its result is named
/// `spec_path_file_name`.
#[verifier::external_body]
pub(crate) fn path_file_name(p: &str) -> (r: Option<String>)
    ensures
        opt_view(r) == spec_path_file_name(p@),
{
    std::path::Path::new(p).file_name().map(|n| n.to_string_lossy().into_owned())
}

/// `p` relative to `base`, when `base` is a prefix of `p`.
///
/// Trusted: calls `Path::strip_prefix`; its result is named
/// `spec_path_strip_prefix`.
#[verifier::external_body]
pub(crate) fn path_strip_prefix(p: &str, base: &str) -> (r: Option<String>)
    ensures
        opt_view(r) == spec_path_strip_prefix(p@, base@),
{
    std::path::Path::new(p).strip_prefix(base).ok().map(|q| q.to_string_lossy().into_owned())
}

/// `p` and its ancestors, nearest first.
///
/// Trusted: calls `Path::ancestors`; the paths it yields are named
/// `spec_path_ancestors`.
#[verifier::external_body]
pub(crate) fn path_ancestors(p: &str) -> (r: Vec<String>)
    ensures
        r@.map_values(|s: String| s@) == spec_path_ancestors(p@),
{
    std::path::Path::new(p).ancestors().map(|a| a.to_string_lossy().into_owned()).collect()
}

/// Whether two paths are equal as paths (component by component).
///
/// Trusted: calls `PartialEq` of `std::path::Path`; its result is named
/// `spec_path_eq`.
#[verifier::external_body]
pub(crate) fn path_eq(a: &str, b: &str) -> (r: bool)
    ensures
        r == spec_path_eq(a@, b@),
{
    std::path::Path::new(a) == std::path::Path::new(b)
}

/// Whether `p` names an existing directory.
///
/// Trusted: calls `Path::is_dir`. Its answer depends on the file system at
/// the moment of the call, so nothing is stated of it.
#[verifier::external_body]
pub(crate) fn path_is_dir(p: &str) -> bool {
    std::path::Path::new(p).is_dir()
}

/// Whether `p` names an existing regular file.
///
/// Trusted: calls `Path::is_file`. Its answer depends on the file system at
/// the moment of the call, so nothing is stated of it.
#[verifier::external_body]
pub(crate) fn path_is_file(p: &str) -> bool {
    std::path::Path::new(p).is_file()
}

} // verus!
