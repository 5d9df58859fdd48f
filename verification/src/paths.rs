//! Path manipulation for roll patterns, through `camino`'s UTF-8 paths.
//!
//! What a parent, file name or join is, is `camino`'s (and thereby the
//! platform's) business: the library names those results and builds its
//! contracts on the names.
use vstd::prelude::*;

use camino::Utf8Path;

verus! {

/// What `camino::Utf8Path::parent` answers for a path: `None` at a root or
/// prefix.
pub uninterp spec fn parent_of(s: Seq<char>) -> Option<Seq<char>>;

/// What `camino::Utf8Path::file_name` answers for a path: `None` for a path
/// ending in `..` or a root.
pub uninterp spec fn file_name_of(s: Seq<char>) -> Option<Seq<char>>;

/// What `camino::Utf8Path::join` answers for a base and a child path.
pub uninterp spec fn join_of(base: Seq<char>, child: Seq<char>) -> Seq<char>;

/// Relies on `camino::Utf8Path::parent`: the directory containing the path,
/// a pure function of the path string.
#[verifier::external_body]
pub fn path_parent(s: &str) -> (r: Option<String>)
    ensures
        match r {
            Some(p) => parent_of(s@) == Some(p@),
            None => parent_of(s@) is None,
        },
{
    Utf8Path::new(s).parent().map(|p| p.as_str().to_owned())
}

/// Relies on `camino::Utf8Path::file_name`: the final path component, a pure
/// function of the path string.
#[verifier::external_body]
pub fn path_file_name(s: &str) -> (r: Option<String>)
    ensures
        match r {
            Some(f) => file_name_of(s@) == Some(f@),
            None => file_name_of(s@) is None,
        },
{
    Utf8Path::new(s).file_name().map(|f| f.to_owned())
}

/// Relies on `camino::Utf8Path::join`: the child adjoined to the base, a
/// pure function of the two strings.
#[verifier::external_body]
pub fn path_join(base: &str, child: &str) -> (r: String)
    ensures
        r@ == join_of(base@, child@),
{
    Utf8Path::new(base).join(child).into_string()
}

} // verus!
