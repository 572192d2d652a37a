//! Directory paths. A path is held as text; what its parent is and how a name
//! is joined to it is asked of `std::path`, never worked out here: where a
//! path is cut into components is the platform's matter. The two answers have
//! a name each, so that contracts can speak of them; nothing is proved of
//! what they are for a given path.

use vstd::prelude::*;

verus! {

/// What `std::path::Path::parent` gives for the path written `dir`, as text:
/// the path without its last component, or `None` where it has none to drop.
pub uninterp spec fn parent_of(dir: Seq<char>) -> Option<Seq<char>>;

/// What `std::path::Path::join` gives for the path written `dir` and the
/// component `name`, as text.
pub uninterp spec fn joined(dir: Seq<char>, name: Seq<char>) -> Seq<char>;

/// Calls `std::path::Path::parent` on the path written `dir`.
///
/// Trusted: the result is `parent_of(dir)`. A parent is cut from its child's
/// text, so turning it back into a `String` loses nothing.
#[verifier::external_body]
pub(crate) fn parent_dir(dir: &str) -> (parent: Option<String>)
    ensures
        parent is Some <==> parent_of(dir@) is Some,
        parent is Some ==> parent->0@ == parent_of(dir@)->0,
{
    match std::path::Path::new(dir).parent() {
        Some(p) => Some(p.to_string_lossy().into_owned()),
        None => None,
    }
}

/// Calls `std::path::Path::join` on the path written `dir` with the component
/// `name`.
///
/// Trusted: the result is `joined(dir, name)`. Both parts are text, so the
/// joined path is text as well.
#[verifier::external_body]
pub(crate) fn join_dir(dir: &str, name: &str) -> (path: String)
    ensures
        path@ == joined(dir@, name@),
{
    std::path::Path::new(dir).join(name).to_string_lossy().into_owned()
}

} // verus!
