//! Paths as text, joined the way POSIX paths are.

use vstd::prelude::*;
use vstd::string::{StrSliceExecFns, StringExecFns};

verus! {

/// A path with another adjoined, as POSIX paths are joined: an absolute
/// `rest` stands alone; otherwise `rest` follows `base`, after a slash unless
/// `base` is empty or ends in one.
pub open spec fn joined(base: Seq<char>, rest: Seq<char>) -> Seq<char> {
    if rest.len() > 0 && rest[0] == '/' {
        rest
    } else if base.len() == 0 || base.last() == '/' {
        base + rest
    } else {
        base + seq!['/'] + rest
    }
}

/// Adjoins `rest` to `base`.
pub fn join(base: &str, rest: &str) -> (path: String)
    ensures
        path@ == joined(base@, rest@),
{
    if rest.unicode_len() > 0 && rest.get_char(0) == '/' {
        return String::from_str(rest);
    }
    let base_len = base.unicode_len();
    let mut path = String::from_str(base);
    if base_len > 0 && base.get_char(base_len - 1) != '/' {
        proof {
            reveal_strlit("/");
        }
        path.append("/");
        assert(path@ =~= base@ + seq!['/']);
    }
    path.append(rest);
    path
}

} // verus!
