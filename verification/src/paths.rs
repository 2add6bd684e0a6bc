//! File paths, held as text. The path operations of `std::path` that this
//! library calls, each a thin call whose result is named here: what they
//! give depends on the path's text alone.

use vstd::prelude::*;
use std::path::Path;

verus! {

/// What `Path::file_name` gives for a path: its final component, if there is
/// one.
pub uninterp spec fn file_name_of(path: Seq<char>) -> Option<Seq<char>>;

/// What `Path::strip_prefix` gives: the rest of `path` after the components
/// of `base`, when `base` is a prefix of it.
pub uninterp spec fn strip_prefix_of(path: Seq<char>, base: Seq<char>) -> Option<Seq<char>>;

/// What `Path::parent` gives: the path without its final component, if it
/// has one.
pub uninterp spec fn parent_of(path: Seq<char>) -> Option<Seq<char>>;

/// What `Path::join` gives: `path` with `name` appended as a component (or
/// `name` alone, when it is absolute).
pub uninterp spec fn join_of(path: Seq<char>, name: Seq<char>) -> Seq<char>;

/// `Path::file_name`, as text.
#[verifier::external_body]
pub(crate) fn file_name(path: &str) -> (r: Option<String>)
    ensures
        match r {
            Some(n) => file_name_of(path@) == Some(n@),
            None => file_name_of(path@) is None,
        },
{
    Path::new(path).file_name().map(|n| n.to_string_lossy().into_owned())
}

/// `Path::strip_prefix`, as text. As its documentation says, the rest,
/// joined onto the base, gives back the path.
#[verifier::external_body]
pub(crate) fn strip_prefix(path: &str, base: &str) -> (r: Option<String>)
    ensures
        match r {
            Some(rest) => strip_prefix_of(path@, base@) == Some(rest@),
            None => strip_prefix_of(path@, base@) is None,
        },
        r matches Some(rest) ==> path_order_of(join_of(base@, rest@), path@) == 0,
{
    Path::new(path).strip_prefix(base).ok().map(|p| p.to_string_lossy().into_owned())
}

/// `Path::parent`, as text.
#[verifier::external_body]
pub(crate) fn parent(path: &str) -> (r: Option<String>)
    ensures
        match r {
            Some(p) => parent_of(path@) == Some(p@),
            None => parent_of(path@) is None,
        },
{
    Path::new(path).parent().map(|p| p.to_string_lossy().into_owned())
}

/// `Path::join`, as text.
#[verifier::external_body]
pub(crate) fn join(path: &str, name: &str) -> (r: String)
    ensures
        r@ == join_of(path@, name@),
{
    Path::new(path).join(name).to_string_lossy().into_owned()
}

/// What `Path::cmp` gives for two paths, as -1, 0 or 1: paths are ordered
/// component by component.
pub uninterp spec fn path_order_of(a: Seq<char>, b: Seq<char>) -> int;

/// `Path::cmp`, as -1, 0 or 1. `Path` is `Ord`, a total order, so the two
/// paths the other way round compare the other way.
#[verifier::external_body]
pub(crate) fn compare_paths(a: &str, b: &str) -> (r: i8)
    ensures
        r == path_order_of(a@, b@),
        -1 <= r <= 1,
        path_order_of(b@, a@) == -r,
{
    match Path::new(a).cmp(Path::new(b)) {
        std::cmp::Ordering::Less => -1,
        std::cmp::Ordering::Equal => 0,
        std::cmp::Ordering::Greater => 1,
    }
}

} // verus!
