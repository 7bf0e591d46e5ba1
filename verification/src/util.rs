//! Paths, the clock, and commit ranges.

use std::path::Path;
use std::time::{SystemTime, UNIX_EPOCH};
use vstd::prelude::*;
use vstd::string::StringExecFns;

use crate::text::occurs_in;

verus! {

/// What `Path::file_name` gives for `path`: its last component, or nothing
/// where it has none.
pub uninterp spec fn file_name_of(path: Seq<char>) -> Option<Seq<char>>;

/// What `Path::parent` gives for `path`: the path without its last
/// component, or nothing where it has none.
pub uninterp spec fn parent_of(path: Seq<char>) -> Option<Seq<char>>;

/// The value of a text that may be missing.
pub open spec fn optional_view(text: Option<String>) -> Option<Seq<char>> {
    match text {
        Some(text) => Some(text@),
        None => None,
    }
}

/// `Path::file_name` gives the last component of a path, or nothing where
/// the path has none or ends in `..`. It takes the path apart and looks at
/// nothing else, so what it gives is a function of the path. A component
/// is a non-empty piece of the path, and the empty path has no component.
/// Which characters separate components is fixed by the platform that the
/// library is built for, so no more is said of the component.
#[verifier::external_body]
fn path_file_name(path: &str) -> (name: Option<String>)
    ensures
        optional_view(name) == file_name_of(path@),
        match name {
            Some(name) => name@.len() > 0 && occurs_in(path@, name@),
            None => true,
        },
        path@.len() == 0 ==> name is None,
{
    Path::new(path).file_name().and_then(|f| f.to_str()).map(String::from)
}

/// `Path::parent` gives a path without its last component, or nothing where
/// the path is empty or ends in a root. It takes the path apart and looks
/// at nothing else, so what it gives is a function of the path: a beginning
/// of the path, shorter than the path.
#[verifier::external_body]
fn path_parent(path: &str) -> (dir: Option<String>)
    ensures
        optional_view(dir) == parent_of(path@),
        match dir {
            Some(dir) => dir@.len() < path@.len() && dir@ == path@.take(dir@.len() as int),
            None => true,
        },
        path@.len() == 0 ==> dir is None,
{
    Path::new(path).parent().and_then(|f| f.to_str()).map(String::from)
}

/// `SystemTime::now` reads the clock, and `duration_since` gives the time
/// since the start of 1970 in milliseconds, or nothing where the clock
/// stands before it. Nothing is known of the number.
#[verifier::external_body]
fn millis_since_epoch() -> (millis: Option<u128>) {
    match SystemTime::now().duration_since(UNIX_EPOCH) {
        Ok(since) => Some(since.as_millis()),
        Err(_) => None,
    }
}

/// The last component of `path`, as `Path::file_name` gives it: the name
/// of the file or directory that the path leads to, and nothing for a path
/// without a last component. The platform decides what separates
/// components; the name is a non-empty piece of `path`.
pub fn get_basename(path: &str) -> (name: Option<String>)
    ensures
        optional_view(name) == file_name_of(path@),
        match name {
            Some(name) => name@.len() > 0 && occurs_in(path@, name@),
            None => true,
        },
        path@.len() == 0 ==> name is None,
{
    path_file_name(path)
}

/// `path` without its last component, as `Path::parent` gives it: a
/// beginning of `path`, shorter than `path`, and nothing for a path without
/// a last component.
pub fn get_directory_path(path: &str) -> (dir: Option<String>)
    ensures
        optional_view(dir) == parent_of(path@),
        match dir {
            Some(dir) => dir@.len() < path@.len() && dir@ == path@.take(dir@.len() as int),
            None => true,
        },
        path@.len() == 0 ==> dir is None,
{
    path_parent(path)
}

/// The time that a reading of the clock stands for: its milliseconds, and
/// 0 for a clock that stands before the start of 1970.
pub fn millis_or_zero(millis: Option<u128>) -> (time: u128)
    ensures
        time == match millis {
            Some(millis) => millis,
            None => 0,
        },
{
    match millis {
        Some(millis) => millis,
        None => 0,
    }
}

/// The milliseconds since the start of 1970 by the system clock, and 0
/// where the clock stands before it. The number is what the clock gives:
/// nothing is known of it before the call.
pub fn get_current_time() -> u128 {
    millis_or_zero(millis_since_epoch())
}

/// The revision range from `start` to `end`, both included; an empty `end`
/// stands for `HEAD`, and without `start` the range is all that leads to
/// `end`.
pub open spec fn commit_range(start: Seq<char>, end: Seq<char>) -> Seq<char> {
    if start.len() == 0 && end.len() == 0 {
        "HEAD"@
    } else if start.len() == 0 {
        end
    } else if end.len() == 0 {
        start + "^..HEAD"@
    } else {
        start + "^.."@ + end
    }
}

/// Builds the revision range from `start` to `end`.
pub fn build_commit_range(start: &str, end: &str) -> (range: String)
    ensures
        range@ == commit_range(start@, end@),
{
    if start.is_empty() && end.is_empty() {
        String::from_str("HEAD")
    } else if start.is_empty() {
        String::from_str(end)
    } else if end.is_empty() {
        let mut range = String::from_str(start);
        range.append("^..HEAD");
        range
    } else {
        let mut range = String::from_str(start);
        range.append("^..");
        range.append(end);
        range
    }
}

} // verus!
