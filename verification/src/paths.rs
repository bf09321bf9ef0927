//! File paths and file URIs.
//!
//! Paths travel as UTF-8 strings. What a path means is left to the standard
//! library and to the URL parser, as they read paths on the platform that
//! the crate is built for: each operation here is a call into one of them
//! whose result is given a name, and the rest of the crate is proved over
//! those names. None of the calls looks at the disk.

use vstd::prelude::*;

verus! {

/// The `file` URI of an absolute path; none for a path that has no such URI.
pub uninterp spec fn file_path_uri(path: Seq<char>) -> Option<Seq<char>>;

/// Whether `base` is a prefix of `path`, whole components compared.
pub uninterp spec fn path_has_prefix(path: Seq<char>, base: Seq<char>) -> bool;

/// The directory that holds `path`; none for a root and for the empty path.
pub uninterp spec fn path_parent_of(path: Seq<char>) -> Option<Seq<char>>;

/// What is left of `path` behind `base`; none where `base` is no prefix of it.
pub uninterp spec fn path_relative_to(path: Seq<char>, base: Seq<char>) -> Option<Seq<char>>;

/// Calls `lsp_types::Url::from_file_path` and hands back the URL's text, or
/// none where the call fails. Trusted: the result depends on `path` alone.
#[verifier::external_body]
pub(crate) fn uri_from_file_path(path: &str) -> (uri: Option<String>)
    ensures
        match uri {
            Some(u) => file_path_uri(path@) == Some(u@),
            None => file_path_uri(path@) is None,
        },
{
    match lsp_types::Url::from_file_path(path) {
        Ok(url) => Some(String::from(url)),
        Err(_) => None,
    }
}

/// The `file` URI of the file at `path`; none for a path that has no such
/// URI.
pub fn uri_of_file_path(path: &str) -> (uri: Option<String>)
    ensures
        match uri {
            Some(u) => file_path_uri(path@) == Some(u@),
            None => file_path_uri(path@) is None,
        },
{
    uri_from_file_path(path)
}

/// Calls `std::path::Path::starts_with`. Trusted: the result depends on the
/// two paths alone.
#[verifier::external_body]
pub(crate) fn path_starts_with(path: &str, base: &str) -> (prefixed: bool)
    ensures
        prefixed == path_has_prefix(path@, base@),
{
    std::path::Path::new(path).starts_with(base)
}

/// Calls `std::path::Path::parent` and hands back the parent's text.
/// Trusted: the result depends on `path` alone.
#[verifier::external_body]
pub(crate) fn path_parent(path: &str) -> (parent: Option<String>)
    ensures
        match parent {
            Some(p) => path_parent_of(path@) == Some(p@),
            None => path_parent_of(path@) is None,
        },
{
    match std::path::Path::new(path).parent() {
        Some(parent) => Some(parent.to_string_lossy().into_owned()),
        None => None,
    }
}

/// Calls `std::path::Path::strip_prefix` and hands back the text of what is
/// left, or none where the call fails. Trusted: the result depends on the
/// two paths alone.
#[verifier::external_body]
pub(crate) fn path_strip_prefix(path: &str, base: &str) -> (rest: Option<String>)
    ensures
        match rest {
            Some(r) => path_relative_to(path@, base@) == Some(r@),
            None => path_relative_to(path@, base@) is None,
        },
{
    match std::path::Path::new(path).strip_prefix(base) {
        Ok(rest) => Some(rest.to_string_lossy().into_owned()),
        Err(_) => None,
    }
}

/// The module path of the file at `path` in the package rooted at
/// `package_dir`: its directory relative to the root, and the empty path for
/// a file that has no directory or lies outside the package.
pub open spec fn module_path_of(path: Seq<char>, package_dir: Seq<char>) -> Seq<char> {
    match path_parent_of(path) {
        Some(parent) => match path_relative_to(parent, package_dir) {
            Some(rest) => rest,
            None => Seq::empty(),
        },
        None => Seq::empty(),
    }
}

/// The module path of the file at `path` in the package rooted at
/// `package_dir`.
pub fn module_path_to_root(path: &str, package_dir: &str) -> (relative: String)
    ensures
        relative@ == module_path_of(path@, package_dir@),
{
    match path_parent(path) {
        Some(parent) => match path_strip_prefix(parent.as_str(), package_dir) {
            Some(rest) => rest,
            None => String::new(),
        },
        None => String::new(),
    }
}

} // verus!
