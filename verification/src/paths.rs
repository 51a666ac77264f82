//! Paths as texts: the file name of a path, as the standard library tells
//! it, and a path joined to a directory.

use vstd::prelude::*;
use vstd::string::*;
use crate::error::concat2;
use crate::text::{chars_of, text_of};

verus! {

/// What `Path::file_name` makes of a path: its final component, and nothing
/// where the path ends in `..` or has no component.
pub uninterp spec fn file_name_of(path: Seq<char>) -> Option<Seq<char>>;

/// A path joined to a directory, as `Path::join` joins them: the path alone
/// where it begins with a slash; else the directory, a slash unless the
/// directory is empty or ends in one, and the path.
pub open spec fn joined_path(dir: Seq<char>, path: Seq<char>) -> Seq<char> {
    if path.len() > 0 && path[0] == '/' {
        path
    } else if dir.len() == 0 || dir.last() == '/' {
        dir + path
    } else {
        dir + "/"@ + path
    }
}

/// Calls `Path::file_name` on the path that the string spells and hands the
/// component back as a string. The contract names the result.
#[verifier::external_body]
pub(crate) fn file_name(path: &str) -> (name: Option<String>)
    ensures
        text_of(name) == file_name_of(path@),
{
    std::path::Path::new(path).file_name().and_then(|n| n.to_str()).map(|n| n.to_string())
}

/// A path joined to a directory.
pub fn join_path(dir: &str, path: &str) -> (joined: String)
    ensures
        joined@ == joined_path(dir@, path@),
{
    let p = chars_of(path);
    if p.len() > 0 && p[0] == '/' {
        return String::from_str(path);
    }
    let d = chars_of(dir);
    if d.len() == 0 || d[d.len() - 1] == '/' {
        concat2(dir, path)
    } else {
        concat2(dir, "/").concat(path)
    }
}

} // verus!
