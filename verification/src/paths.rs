//! Path components, as `std::path::Path` reads them from a path written as text.
use vstd::prelude::*;

use crate::text::opt_view;
use vstd::string::StringExecFns;

verus! {

/// What `Path::file_name` returns for the path `path`.
pub uninterp spec fn std_file_name(path: Seq<char>) -> Option<Seq<char>>;

/// Index of the last `.` in `name`, or -1 when it has none.
pub open spec fn last_dot(name: Seq<char>) -> int
    decreases name.len(),
{
    if name.len() == 0 {
        -1
    } else if name.last() == '.' {
        name.len() - 1
    } else {
        last_dot(name.drop_last())
    }
}

/// The stem of a file name, as `Path::file_stem` documents it: the whole
/// name when it has no `.` or only a leading one, otherwise the part before
/// the last `.`.
pub open spec fn name_stem(name: Seq<char>) -> Seq<char> {
    if last_dot(name) <= 0 {
        name
    } else {
        name.take(last_dot(name))
    }
}

/// The extension of a file name, as `Path::extension` documents it: none
/// when the name has no `.` or only a leading one, otherwise the part after
/// the last `.`.
pub open spec fn name_extension(name: Seq<char>) -> Option<Seq<char>> {
    if last_dot(name) <= 0 {
        None
    } else {
        Some(name.skip(last_dot(name) + 1))
    }
}

/// What `Path::file_stem` returns for the path `path`: the stem of its file
/// name, if it has one.
pub open spec fn std_file_stem(path: Seq<char>) -> Option<Seq<char>> {
    match std_file_name(path) {
        Some(n) => Some(name_stem(n)),
        None => None,
    }
}

/// What `Path::extension` returns for the path `path`: the extension of its
/// file name, if it has one.
pub open spec fn std_extension(path: Seq<char>) -> Option<Seq<char>> {
    match std_file_name(path) {
        Some(n) => name_extension(n),
        None => None,
    }
}

/// What `Path::parent` returns for the path `path`.
pub uninterp spec fn std_parent(path: Seq<char>) -> Option<Seq<char>>;

/// Calls `std::path::Path::file_name`: the final component of the path, if
/// there is one.  The contract only names the result.
#[verifier::external_body]
pub(crate) fn file_name(path: &str) -> (r: Option<String>)
    ensures
        opt_view(r) == std_file_name(path@),
{
    std::path::Path::new(path).file_name().map(|s| s.to_string_lossy().into_owned())
}

/// Calls `std::path::Path::file_stem`.  The contract states what the
/// documentation gives: the stem of the file name (see [`name_stem`]).
#[verifier::external_body]
pub(crate) fn file_stem(path: &str) -> (r: Option<String>)
    ensures
        opt_view(r) == std_file_stem(path@),
{
    std::path::Path::new(path).file_stem().map(|s| s.to_string_lossy().into_owned())
}

/// Calls `std::path::Path::extension`.  The contract states what the
/// documentation gives: the extension of the file name (see
/// [`name_extension`]).
#[verifier::external_body]
pub(crate) fn extension(path: &str) -> (r: Option<String>)
    ensures
        opt_view(r) == std_extension(path@),
{
    std::path::Path::new(path).extension().map(|s| s.to_string_lossy().into_owned())
}

/// Calls `std::path::Path::parent`: the path without its final component.
/// The contract only names the result.
#[verifier::external_body]
pub(crate) fn parent(path: &str) -> (r: Option<String>)
    ensures
        opt_view(r) == std_parent(path@),
{
    std::path::Path::new(path).parent().map(|p| p.to_string_lossy().into_owned())
}

/// The path names a `.jsonl` file: its extension is `jsonl`.
pub open spec fn is_jsonl_path(path: Seq<char>) -> bool {
    std_extension(path) == Some("jsonl"@)
}

/// Whether the extension of `path` is `jsonl`.
pub fn has_jsonl_extension(path: &str) -> (r: bool)
    ensures
        r == is_jsonl_path(path@),
{
    let jsonl = String::from_str("jsonl");
    match extension(path) {
        Some(e) => e == jsonl,
        None => false,
    }
}

} // verus!
