//! Paths as the editor keeps them: text, taken apart and compared by the
//! standard library's path rules.
use vstd::prelude::*;

verus! {

/// What `std::path::Path::file_stem` gives for a path: the final component
/// without its extension, when the path has a final component.
pub uninterp spec fn file_stem_of(path: Seq<char>) -> Option<Seq<char>>;

/// What `std::path::Path::parent` gives for a path: the path without its
/// final component, when it has one.
pub uninterp spec fn parent_of(path: Seq<char>) -> Option<Seq<char>>;

/// Whether `std::path::Path`'s equality holds between two paths (it compares
/// them component by component, so `a/b` and `a//b/` are equal).
pub uninterp spec fn same_path(a: Seq<char>, b: Seq<char>) -> bool;

/// Calls `std::path::Path::file_stem` on the path text. The contract claims
/// only that the result is the stem that `file_stem_of` names; the stem of a
/// UTF-8 path is itself UTF-8, so no stem is lost in the conversion.
#[verifier::external_body]
pub(crate) fn file_stem(path: &str) -> (r: Option<String>)
    ensures
        r.deep_view() == file_stem_of(path@),
{
    std::path::Path::new(path).file_stem().and_then(|s| s.to_str()).map(|s| s.to_string())
}

/// Calls `std::path::Path::parent` on the path text. The contract claims only
/// that the result is the parent that `parent_of` names.
#[verifier::external_body]
pub(crate) fn parent(path: &str) -> (r: Option<String>)
    ensures
        r.deep_view() == parent_of(path@),
{
    std::path::Path::new(path).parent().and_then(|p| p.to_str()).map(|p| p.to_string())
}

/// Compares two paths with `std::path::Path`'s `==`. The contract claims that
/// the result is what `same_path` names, that equal texts are equal paths,
/// and that the comparison is symmetric, as `PartialEq` requires of every
/// implementation and as `Path`'s component-wise comparison is.
#[verifier::external_body]
pub(crate) fn paths_equal(a: &str, b: &str) -> (r: bool)
    ensures
        r == same_path(a@, b@),
        r == same_path(b@, a@),
        a@ == b@ ==> r,
{
    std::path::Path::new(a) == std::path::Path::new(b)
}

} // verus!

verus! {

/// What `std::path::Path::file_name` gives for a path: its final component.
pub uninterp spec fn file_name_of(path: Seq<char>) -> Option<Seq<char>>;

/// What `std::path::Path::extension` gives for a path: the final
/// component's extension, when it has one.
pub uninterp spec fn extension_of(path: Seq<char>) -> Option<Seq<char>>;

/// Calls `std::path::Path::file_name` on the path text. The contract claims
/// only that the result is the name that `file_name_of` names.
#[verifier::external_body]
pub(crate) fn file_name(path: &str) -> (r: Option<String>)
    ensures
        r.deep_view() == file_name_of(path@),
{
    std::path::Path::new(path).file_name().and_then(|s| s.to_str()).map(|s| s.to_string())
}

/// Calls `std::path::Path::extension` on the path text. The contract claims
/// only that the result is the extension that `extension_of` names.
#[verifier::external_body]
pub(crate) fn extension(path: &str) -> (r: Option<String>)
    ensures
        r.deep_view() == extension_of(path@),
{
    std::path::Path::new(path).extension().and_then(|s| s.to_str()).map(|s| s.to_string())
}

/// Whether `std::path::Path::is_absolute` holds of a path on the target
/// platform (on Unix: it starts at the root).
pub uninterp spec fn is_absolute_path(path: Seq<char>) -> bool;

/// What `std::path::Path::join` gives for a base and a path.
pub uninterp spec fn joined_path(base: Seq<char>, path: Seq<char>) -> Seq<char>;

/// Calls `std::path::Path::is_absolute` on the path text. The contract claims
/// only that the result is what `is_absolute_path` names.
#[verifier::external_body]
pub(crate) fn is_absolute(path: &str) -> (r: bool)
    ensures
        r == is_absolute_path(path@),
{
    std::path::Path::new(path).is_absolute()
}

/// Calls `std::path::Path::join` on two path texts. The contract claims that
/// the result is what `joined_path` names, and, as the documentation of
/// `join` says, that an absolute path replaces the base. Joining two UTF-8
/// paths gives a UTF-8 path, so the conversion back to text loses nothing.
#[verifier::external_body]
pub(crate) fn join(base: &str, path: &str) -> (r: String)
    ensures
        r@ == joined_path(base@, path@),
        is_absolute_path(path@) ==> r@ == path@,
{
    std::path::Path::new(base).join(path).to_string_lossy().into_owned()
}

} // verus!
