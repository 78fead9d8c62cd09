//! Whether a path can be the trace file of a run.

use vstd::prelude::*;
use vstd::string::StringExecFns;

verus! {

/// What is said of a path that is given as input: the path itself where it
/// exists and is a regular file, else why it is refused.
pub open spec fn checked_input(path: Seq<char>, exists: bool, regular: bool) -> Result<
    Seq<char>,
    Seq<char>,
> {
    if !exists {
        Err("does not exist: "@ + path)
    } else if regular {
        Ok(path)
    } else {
        Err("is not a file: "@ + path)
    }
}

/// The view of an accepted path or of the reason for a refusal.
pub open spec fn checked_view(r: Result<String, String>) -> Result<Seq<char>, Seq<char>> {
    match r {
        Ok(path) => Ok(path@),
        Err(reason) => Err(reason@),
    }
}

/// Accepts `path` as input where it exists and is a regular file: `exists`
/// and `regular` say what was found at the path.
pub fn is_file(path: &str, exists: bool, regular: bool) -> (r: Result<String, String>)
    ensures
        checked_view(r) == checked_input(path@, exists, regular),
{
    if !exists {
        Err(String::from_str("does not exist: ").concat(path))
    } else if regular {
        Ok(String::from_str(path))
    } else {
        Err(String::from_str("is not a file: ").concat(path))
    }
}

} // verus!
