//! Text and path helpers over std, each stated over character sequences.

use vstd::prelude::*;

verus! {

/// `p` occurs in `s` as a contiguous run of characters.
pub open spec fn has_substring(s: Seq<char>, p: Seq<char>) -> bool {
    exists|i: int| 0 <= i && i + p.len() <= s.len() && #[trigger] s.subrange(i, i + p.len()) == p
}

/// What `str::to_lowercase` makes of a string.
pub uninterp spec fn lower_of(s: Seq<char>) -> Seq<char>;

/// The path `full` relative to `root`, as `Path::strip_prefix` computes it.
pub uninterp spec fn relative_to(root: Seq<char>, full: Seq<char>) -> Option<Seq<char>>;

/// The extension of the path's file name, as `Path::extension` gives it.
pub uninterp spec fn extension_of(path: Seq<char>) -> Option<Seq<char>>;

/// Relies on `str::to_lowercase`: the result depends on the characters alone,
/// and the empty string stays empty.
#[verifier::external_body]
pub fn to_lower(s: &str) -> (r: String)
    ensures
        r@ == lower_of(s@),
        s@.len() == 0 ==> r@.len() == 0,
{
    s.to_lowercase()
}

/// Relies on `str::contains` with a `&str` pattern: true exactly when the
/// pattern occurs in the string as a contiguous run.
#[verifier::external_body]
pub fn contains_str(s: &str, p: &str) -> (r: bool)
    ensures
        r == has_substring(s@, p@),
{
    s.contains(p)
}

/// Relies on `Path::strip_prefix`: the part of `full` below `root`, by whole
/// path components, or `None` where `root` is not a prefix of `full`.
#[verifier::external_body]
pub fn strip_root(root: &str, full: &str) -> (r: Option<String>)
    ensures
        match r {
            Some(s) => relative_to(root@, full@) == Some(s@),
            None => relative_to(root@, full@).is_none(),
        },
{
    std::path::Path::new(full).strip_prefix(root).ok().map(|p| p.to_string_lossy().into_owned())
}

/// Relies on `Path::extension`: the text after the last dot of the final file
/// name, if it has one.
#[verifier::external_body]
pub fn path_extension(path: &str) -> (r: Option<String>)
    ensures
        match r {
            Some(s) => extension_of(path@) == Some(s@),
            None => extension_of(path@).is_none(),
        },
{
    std::path::Path::new(path).extension().map(|e| e.to_string_lossy().into_owned())
}

} // verus!
