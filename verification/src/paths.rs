//! File-system path arithmetic on textual paths (`std::path`), as trusted
//! wrappers with named results.

use vstd::prelude::*;

verus! {

/// The path `base` extended by `name` (`Path::join`).
pub uninterp spec fn path_join(base: Seq<char>, name: Seq<char>) -> Seq<char>;

/// The parent of a path, if it has one (`Path::parent`).
pub uninterp spec fn path_parent(path: Seq<char>) -> Option<Seq<char>>;

/// The extension of a path's final component, if any (`Path::extension`).
pub uninterp spec fn path_extension(path: Seq<char>) -> Option<Seq<char>>;

/// The final component of a path, if any (`Path::file_name`).
pub uninterp spec fn path_file_name(path: Seq<char>) -> Option<Seq<char>>;

/// `Path::new(base).join(name)` as text, on a Unix target, where the
/// separator is `/`. Its documentation says that an absolute `name` replaces
/// `base`, and that a relative `name` is appended after a separator; only
/// the case of a non-empty `base` without a trailing separator is stated for
/// the latter, since what an empty `base` or one that already ends in `/`
/// gives is not spelled out there.
#[verifier::external_body]
pub(crate) fn join_path(base: &str, name: &str) -> (r: String)
    ensures
        r@ == path_join(base@, name@),
        name@.len() > 0 && name@[0] == '/' ==> r@ == name@,
        base@.len() > 0 && base@.last() != '/' && !(name@.len() > 0 && name@[0] == '/') ==> r@
            == base@ + seq!['/'] + name@,
{
    std::path::Path::new(base).join(name).to_string_lossy().into_owned()
}

/// `Path::new(path).parent()` as text.
#[verifier::external_body]
pub(crate) fn parent_of(path: &str) -> (r: Option<String>)
    ensures
        r matches Some(p) ==> path_parent(path@) == Some(p@),
        r is None ==> path_parent(path@) is None,
{
    std::path::Path::new(path).parent().map(|p| p.to_string_lossy().into_owned())
}

/// `Path::new(path).extension()` as text.
#[verifier::external_body]
pub(crate) fn extension_of(path: &str) -> (r: Option<String>)
    ensures
        r matches Some(e) ==> path_extension(path@) == Some(e@),
        r is None ==> path_extension(path@) is None,
{
    std::path::Path::new(path).extension().map(|e| e.to_string_lossy().into_owned())
}

/// `Path::new(path).file_name()` as text.
#[verifier::external_body]
pub(crate) fn file_name_of(path: &str) -> (r: Option<String>)
    ensures
        r matches Some(f) ==> path_file_name(path@) == Some(f@),
        r is None ==> path_file_name(path@) is None,
{
    std::path::Path::new(path).file_name().map(|f| f.to_string_lossy().into_owned())
}

} // verus!
