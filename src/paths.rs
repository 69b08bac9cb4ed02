//! Paths are held as text. What std's `Path` computes of them goes through
//! the wrappers here.
use vstd::prelude::*;

verus! {

/// The file stem of a path, as std's `Path::file_stem` computes it.
pub uninterp spec fn stem_of(path: Seq<char>) -> Option<Seq<char>>;

/// The extension of a path, as std's `Path::extension` computes it.
pub uninterp spec fn extension_of(path: Seq<char>) -> Option<Seq<char>>;

/// The path `part` joined onto `base`, as std's `Path::join` computes it.
pub uninterp spec fn joined(base: Seq<char>, part: Seq<char>) -> Seq<char>;

/// Relies on Path::file_stem: the final component without its extension, or
/// none; it depends on the path alone. A path given as text converts back
/// to text without loss.
#[verifier::external_body]
pub(crate) fn file_stem(path: &str) -> (r: Option<String>)
    ensures
        r matches Some(s) ==> stem_of(path@) == Some(s@),
        r is None ==> stem_of(path@) is None,
{
    std::path::Path::new(path).file_stem().and_then(|s| s.to_str()).map(|s| s.to_string())
}

/// Relies on Path::extension: the text after the final component's last
/// dot, or none; it depends on the path alone.
#[verifier::external_body]
pub(crate) fn extension(path: &str) -> (r: Option<String>)
    ensures
        r matches Some(s) ==> extension_of(path@) == Some(s@),
        r is None ==> extension_of(path@) is None,
{
    std::path::Path::new(path).extension().and_then(|s| s.to_str()).map(|s| s.to_string())
}

/// Relies on Path::join: the result depends on the two paths alone.
#[verifier::external_body]
pub(crate) fn join_path(base: &str, part: &str) -> (r: String)
    ensures
        r@ == joined(base@, part@),
{
    std::path::Path::new(base).join(part).to_string_lossy().into_owned()
}

} // verus!
