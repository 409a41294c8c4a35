//! The argument list for the version-control diff invocation. The
//! subprocess itself runs outside the library; its standard output comes
//! back verbatim, an empty diff being an empty string.

use vstd::prelude::*;

verus! {

/// The arguments handed to the version-control tool for a textual diff
/// of `path`, restricted to staged changes when `staged` is set.
pub fn diff_args(path: &str, staged: bool) -> (r: Vec<String>)
    ensures
        staged ==> r.deep_view() == seq!["diff"@, "--staged"@, path@],
        !staged ==> r.deep_view() == seq!["diff"@, path@],
{
    let mut r: Vec<String> = Vec::new();
    r.push("diff".to_owned());
    if staged {
        r.push("--staged".to_owned());
    }
    r.push(path.to_owned());
    if staged {
        assert(r.deep_view() =~= seq!["diff"@, "--staged"@, path@]);
    } else {
        assert(r.deep_view() =~= seq!["diff"@, path@]);
    }
    r
}

} // verus!
