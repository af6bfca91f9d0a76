//! Path queries, each answered by `std::path::Path`.
use vstd::prelude::*;

verus! {

/// What `Path::extension` gives for a path: the part of the file name after its
/// last `'.'`, when there is one.
pub uninterp spec fn extension_of(p: Seq<char>) -> Option<Seq<char>>;

/// Relies on `Path::extension`; a path given as `&str` is valid UTF-8, and so is its
/// extension.
#[verifier::external_body]
pub fn path_extension(p: &str) -> (r: Option<String>)
    ensures
        r matches Some(e) ==> extension_of(p@) == Some(e@),
        r is None ==> extension_of(p@) is None,
{
    std::path::Path::new(p).extension().and_then(|e| e.to_str()).map(|e| e.to_string())
}

/// What `Path::file_stem` gives for a path: the file name without its extension.
pub uninterp spec fn stem_of(p: Seq<char>) -> Option<Seq<char>>;

/// Relies on `Path::file_stem`.
#[verifier::external_body]
pub fn path_stem(p: &str) -> (r: Option<String>)
    ensures
        r matches Some(e) ==> stem_of(p@) == Some(e@),
        r is None ==> stem_of(p@) is None,
{
    std::path::Path::new(p).file_stem().and_then(|e| e.to_str()).map(|e| e.to_string())
}

/// What `Path::file_name` gives for a path: its last component.
pub uninterp spec fn file_name_of(p: Seq<char>) -> Option<Seq<char>>;

/// Relies on `Path::file_name`.
#[verifier::external_body]
pub fn path_file_name(p: &str) -> (r: Option<String>)
    ensures
        r matches Some(e) ==> file_name_of(p@) == Some(e@),
        r is None ==> file_name_of(p@) is None,
{
    std::path::Path::new(p).file_name().and_then(|e| e.to_str()).map(|e| e.to_string())
}

/// What `Path::starts_with` answers: whether the components of `base` are the
/// first components of `p`.
pub uninterp spec fn has_path_prefix(p: Seq<char>, base: Seq<char>) -> bool;

/// Relies on `Path::starts_with`, which compares whole components.
#[verifier::external_body]
pub fn path_starts_with(p: &str, base: &str) -> (r: bool)
    ensures
        r == has_path_prefix(p@, base@),
{
    std::path::Path::new(p).starts_with(base)
}

/// The name under which an entry is reported: its stem, or the empty name.
pub open spec fn display_stem(p: Seq<char>) -> Seq<char> {
    match stem_of(p) {
        Some(s) => s,
        None => Seq::empty(),
    }
}

/// The stem of a path, or the empty string where it has none.
pub fn stem_or_empty(p: &str) -> (r: String)
    ensures
        r@ == display_stem(p@),
{
    match path_stem(p) {
        Some(s) => s,
        None => String::new(),
    }
}

} // verus!

verus! {

/// What `Path::parent` gives for a path.
pub uninterp spec fn parent_of(p: Seq<char>) -> Option<Seq<char>>;

/// Relies on `Path::parent`.
#[verifier::external_body]
pub fn path_parent(p: &str) -> (r: Option<String>)
    ensures
        r matches Some(e) ==> parent_of(p@) == Some(e@),
        r is None ==> parent_of(p@) is None,
{
    std::path::Path::new(p).parent().and_then(|e| e.to_str()).map(|e| e.to_string())
}

/// What `Path::join` gives for a base and a further path.
pub uninterp spec fn joined(base: Seq<char>, rest: Seq<char>) -> Seq<char>;

/// Relies on `Path::join`; joining two UTF-8 paths gives a UTF-8 path.
#[verifier::external_body]
pub fn path_join(base: &str, rest: &str) -> (r: String)
    ensures
        r@ == joined(base@, rest@),
{
    std::path::Path::new(base).join(rest).to_string_lossy().to_string()
}

/// What `Path::with_file_name` gives: the path with its last component replaced.
pub uninterp spec fn with_file_name_of(p: Seq<char>, name: Seq<char>) -> Seq<char>;

/// Relies on `Path::with_file_name`.
#[verifier::external_body]
pub fn path_with_file_name(p: &str, name: &str) -> (r: String)
    ensures
        r@ == with_file_name_of(p@, name@),
{
    std::path::Path::new(p).with_file_name(name).to_string_lossy().to_string()
}

/// What `==` on `Path` answers: whether the two paths have the same components.
pub uninterp spec fn same_path(a: Seq<char>, b: Seq<char>) -> bool;

/// Relies on `PartialEq` for `Path`, which compares components.
#[verifier::external_body]
pub fn path_eq(a: &str, b: &str) -> (r: bool)
    ensures
        r == same_path(a@, b@),
{
    std::path::Path::new(a) == std::path::Path::new(b)
}

} // verus!
