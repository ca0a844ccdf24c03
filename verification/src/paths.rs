//! File-system paths, held as text.
//!
//! Joining paths, taking a path's parent or extension and replacing its
//! extension are left to `std::path` as built for the target platform; their
//! results are named here so that contracts can speak of them.
use vstd::prelude::*;

verus! {

/// What `std::path::Path::join` gives for `base` joined with `part`, as text.
pub uninterp spec fn path_join(base: Seq<char>, part: Seq<char>) -> Seq<char>;

/// What `std::path::Path::extension` gives for `path`, as text.
pub uninterp spec fn path_extension(path: Seq<char>) -> Option<Seq<char>>;

/// What `std::path::Path::with_extension` gives for `path` and `ext`, as text.
pub uninterp spec fn path_with_extension(path: Seq<char>, ext: Seq<char>) -> Seq<char>;

/// What `std::path::Path::parent` gives for `path`, as text.
pub uninterp spec fn path_parent(path: Seq<char>) -> Option<Seq<char>>;

/// Calls `std::path::Path::join`; the result is the text of the joined
/// path, named `path_join`. Nothing more is claimed of it (the separator
/// depends on the target platform).
#[verifier::external_body]
pub(crate) fn join_path(base: &str, part: &str) -> (r: String)
    ensures
        r@ == path_join(base@, part@),
{
    std::path::Path::new(base).join(part).to_string_lossy().into_owned()
}

/// Calls `std::path::Path::extension`; the result is the extension's text,
/// named `path_extension`.
#[verifier::external_body]
pub(crate) fn extension_of(path: &str) -> (r: Option<String>)
    ensures
        match r {
            Some(e) => path_extension(path@) == Some(e@),
            None => path_extension(path@) is None,
        },
{
    std::path::Path::new(path).extension().map(|e| e.to_string_lossy().into_owned())
}

/// Calls `std::path::Path::with_extension`; the result is the text of the
/// new path, named `path_with_extension`. The call panics when the extension
/// holds a path separator (`/`, and `\\` on Windows), so neither may occur.
#[verifier::external_body]
pub(crate) fn with_extension(path: &str, ext: &str) -> (r: String)
    requires
        !ext@.contains('/'),
        !ext@.contains('\\'),
    ensures
        r@ == path_with_extension(path@, ext@),
{
    std::path::Path::new(path).with_extension(ext).to_string_lossy().into_owned()
}

/// Calls `std::path::Path::parent`; the result is the parent's text, named
/// `path_parent` (none for a root or an empty path).
#[verifier::external_body]
pub(crate) fn parent_of(path: &str) -> (r: Option<String>)
    ensures
        match r {
            Some(p) => path_parent(path@) == Some(p@),
            None => path_parent(path@) is None,
        },
{
    std::path::Path::new(path).parent().map(|p| p.to_string_lossy().into_owned())
}

} // verus!
