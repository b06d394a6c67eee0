//! Path helpers.

use vstd::prelude::*;
use vstd::string::{StrSliceExecFns, StringExecFns};

verus! {

/// `sub` joined to `dir` as a path is pushed onto another on Unix: an
/// absolute `sub` replaces `dir`; otherwise a `/` separates them unless `dir`
/// is empty or already ends with one.
pub open spec fn joined_path(dir: Seq<char>, sub: Seq<char>) -> Seq<char> {
    if sub.len() > 0 && sub[0] == '/' {
        sub
    } else if dir.len() > 0 && dir.last() != '/' {
        dir + "/"@ + sub
    } else {
        dir + sub
    }
}

/// The path of `subdir_path` inside `dir_path`.
pub fn get_path(dir_path: &str, subdir_path: &str) -> (r: String)
    ensures
        r@ == joined_path(dir_path@, subdir_path@),
{
    let sub_len = subdir_path.unicode_len();
    if sub_len > 0 && subdir_path.get_char(0) == '/' {
        return subdir_path.to_owned();
    }
    let dir_len = dir_path.unicode_len();
    let mut r = dir_path.to_owned();
    if dir_len > 0 && dir_path.get_char(dir_len - 1) != '/' {
        r.append("/");
    }
    r.append(subdir_path);
    r
}

} // verus!
