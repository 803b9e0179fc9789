//! The order of file paths. It is the standard library's own, which compares
//! paths component by component, and is taken on trust here.

use std::path::Path;
use vstd::prelude::*;

verus! {

/// Whether the path written `a` does not come after the path written `b` in the
/// order of paths: what `<=` gives for the two as `std::path::Path`s, on the
/// platform the library is built for.
pub uninterp spec fn path_not_after(a: Seq<char>, b: Seq<char>) -> bool;

/// Compares two paths with `<=` of `std::path::Path`. The contract names the
/// result and claims what `Ord` promises of a total order: of two paths, one
/// does not come after the other.
#[verifier::external_body]
pub(crate) fn path_le(a: &str, b: &str) -> (not_after: bool)
    ensures
        not_after == path_not_after(a@, b@),
        !not_after ==> path_not_after(b@, a@),
{
    Path::new(a) <= Path::new(b)
}

} // verus!
