//! Paths of the files that sources keep, as text.

use vstd::prelude::*;

verus! {

pub uninterp spec fn parent_of(p: Seq<char>) -> Option<Seq<char>>;

pub uninterp spec fn file_name_of(p: Seq<char>) -> Option<Seq<char>>;

pub uninterp spec fn joined_path_of(base: Seq<char>, part: Seq<char>) -> Seq<char>;

/// Relies on `std::path::Path::parent`: the path without its last component,
/// where it has one. The result depends on the text alone.
#[verifier::external_body]
pub(crate) fn parent_path(p: &str) -> (r: Option<String>)
    ensures
        match r {
            Some(x) => parent_of(p@) == Some(x@),
            None => parent_of(p@) is None,
        },
{
    std::path::Path::new(p).parent().map(|x| x.to_string_lossy().into_owned())
}

/// Relies on `std::path::Path::file_name`: the last component of a path,
/// where it is a name. The result depends on the text alone.
#[verifier::external_body]
pub(crate) fn file_name(p: &str) -> (r: Option<String>)
    ensures
        match r {
            Some(x) => file_name_of(p@) == Some(x@),
            None => file_name_of(p@) is None,
        },
{
    std::path::Path::new(p).file_name().map(|x| x.to_string_lossy().into_owned())
}

/// Relies on `std::path::Path::join`: `part` appended to `base` as a further
/// component. The result depends on the two texts alone.
#[verifier::external_body]
pub(crate) fn join_path(base: &str, part: &str) -> (r: String)
    ensures
        r@ == joined_path_of(base@, part@),
{
    std::path::Path::new(base).join(part).to_string_lossy().into_owned()
}

/// Relies on `dirs::home_dir`: the user's home directory, where the
/// environment gives one. Nothing is known of the answer.
#[verifier::external_body]
pub(crate) fn home_dir() -> (r: Option<String>) {
    dirs::home_dir().map(|h| h.to_string_lossy().into_owned())
}

/// The name of the directory two levels above a path.
pub open spec fn grandparent_name(p: Seq<char>) -> Option<Seq<char>> {
    match parent_of(p) {
        Some(a) => match parent_of(a) {
            Some(b) => file_name_of(b),
            None => None,
        },
        None => None,
    }
}

/// The name of the directory two levels above a path: for a database at
/// `<project>/.crush/crush.db`, the project.
pub fn grandparent_dir_name(p: &str) -> (r: Option<String>)
    ensures
        opt_view_text(r) == grandparent_name(p@),
{
    match parent_path(p) {
        Some(a) => match parent_path(a.as_str()) {
            Some(b) => file_name(b.as_str()),
            None => None,
        },
        None => None,
    }
}

/// An optional text as an optional view.
pub open spec fn opt_view_text(s: Option<String>) -> Option<Seq<char>> {
    match s {
        Some(t) => Some(t@),
        None => None,
    }
}

} // verus!
