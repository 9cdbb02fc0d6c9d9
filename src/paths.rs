//! File-system paths as text, through `std::path`.

use vstd::prelude::*;

verus! {

/// The parent that `std::path::Path::parent` gives for a path text.
pub uninterp spec fn path_parent(p: Seq<char>) -> Option<Seq<char>>;

/// The path that `std::path::Path::join` gives for a base and a part.
pub uninterp spec fn path_join(base: Seq<char>, part: Seq<char>) -> Seq<char>;

/// Relies on `std::path::Path::parent`: the result depends on the text
/// alone; a parent of a text path is text too.
#[verifier::external_body]
pub(crate) fn parent_of(p: &str) -> (r: Option<String>)
    ensures
        r matches Some(q) ==> path_parent(p@) == Some(q@),
        r is None ==> path_parent(p@) is None,
{
    std::path::Path::new(p).parent().and_then(|q| q.to_str()).map(|q| q.to_owned())
}

/// Relies on `std::path::Path::join`: the result depends on the two texts
/// alone.
#[verifier::external_body]
pub(crate) fn join_path(base: &str, part: &str) -> (r: String)
    ensures
        r@ == path_join(base@, part@),
{
    std::path::Path::new(base).join(part).to_string_lossy().into_owned()
}

} // verus!
