//! File-system paths, held as their text. Joining two paths and telling
//! whether a path is absolute follow the rules of the platform the crate is
//! built for; the library names their results over the texts. Whether
//! something is at a path is the file system's answer at the time of the
//! call: nothing is stated of the answer, but [`dir_answer`] and
//! [`exists_answer`] say that a value is an answer one such call gave for a
//! path, so that callers can state what they did with it.

use vstd::prelude::*;
use std::path::Path;

verus! {

/// The text of `Path::new(base).join(part)`: `base` extended by `part`, or
/// `part` where it is absolute, by the platform's path rules.
pub uninterp spec fn joined_path(base: Seq<char>, part: Seq<char>) -> Seq<char>;

/// Whether `Path::new(p).is_absolute()` holds, by the platform's path rules.
pub uninterp spec fn absolute_path(p: Seq<char>) -> bool;

/// `Path::join`, on texts: the text of `base` joined with `part`. Both are
/// valid UTF-8, so the joined path's text is kept exactly. The contract names
/// the result as a function of the two texts; the platform's rules are not
/// stated.
#[verifier::external_body]
pub fn join_text(base: &str, part: &str) -> (r: String)
    ensures
        r@ == joined_path(base@, part@),
{
    Path::new(base).join(part).to_string_lossy().into_owned()
}

/// `Path::is_absolute`, on a text. The contract names the answer as a
/// function of the text; the platform's rules are not stated.
#[verifier::external_body]
pub fn is_absolute_text(p: &str) -> (r: bool)
    ensures
        r == absolute_path(p@),
{
    Path::new(p).is_absolute()
}

/// `b` is an answer that [`path_exists`] gave for a text `p`: a call of
/// `path_exists` on a `str` whose characters are `p` returned `b`.
pub open spec fn exists_answer(p: Seq<char>, b: bool) -> bool {
    exists|s: &str| s@ == p && #[trigger] call_ensures(path_exists, (s,), b)
}

/// `Path::exists` on a text: whether something is at the path now. The answer
/// is the file system's; nothing is stated of it.
#[verifier::external_body]
pub fn path_exists(p: &str) -> bool {
    Path::new(p).exists()
}

/// `b` is an answer that [`dir_exists`] gave for a text `p`: a call of
/// `dir_exists` on a `str` whose characters are `p` returned `b`. The answer is
/// the file system's at that call; two calls on one path may answer
/// differently.
pub open spec fn dir_answer(p: Seq<char>, b: bool) -> bool {
    exists|s: &str| s@ == p && #[trigger] call_ensures(dir_exists, (s,), b)
}

/// `Path::is_dir` on a text: whether a directory is at the path now. The
/// answer is the file system's; nothing is stated of it.
#[verifier::external_body]
pub fn dir_exists(p: &str) -> bool {
    Path::new(p).is_dir()
}

} // verus!
