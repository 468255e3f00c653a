//! Paths as texts, read the way `std::path::Path` reads them, and the search for one
//! text inside another.

use std::path::Path;
use vstd::prelude::*;

verus! {

/// Whether `base` is a prefix of `path` when both are split into components, whole
/// components only: `/a/b` is a prefix of `/a/b/c`, not of `/a/bc`.
///
/// This and the other names of this file stand for what `std::path::Path` computes on
/// the platform that the library is built for: the separator and the drive prefixes
/// are those of that platform, and the names are fixed for it, not across platforms.
pub uninterp spec fn path_has_prefix(path: Seq<char>, base: Seq<char>) -> bool;

/// What is left of `path` once the prefix `base` is taken off its front.
pub uninterp spec fn path_remainder(path: Seq<char>, base: Seq<char>) -> Seq<char>;

/// The extension of the file name of `path`: what follows its last dot, if the name
/// has a dot that is not its first character.
pub uninterp spec fn path_extension(path: Seq<char>) -> Option<Seq<char>>;

/// Whether the path is absolute: it says where it begins, whatever the current
/// directory is.
pub uninterp spec fn path_absolute(path: Seq<char>) -> bool;

/// Whether two texts are the same path: the same components in the same order.
pub uninterp spec fn path_same(a: Seq<char>, b: Seq<char>) -> bool;

/// Whether `needle` occurs in `haystack` as a run of consecutive characters.
pub open spec fn is_substring(needle: Seq<char>, haystack: Seq<char>) -> bool {
    exists|i: int|
        0 <= i && i + needle.len() <= haystack.len() && #[trigger] haystack.subrange(
            i,
            i + needle.len(),
        ) == needle
}

/// Whether some text of `needles` occurs in `haystack`.
pub open spec fn any_substring(needles: Seq<String>, haystack: Seq<char>) -> bool {
    exists|i: int| 0 <= i < needles.len() && is_substring(#[trigger] needles[i]@, haystack)
}

/// Whether some path of `bases` is a prefix of `path`.
pub open spec fn any_prefix(bases: Seq<String>, path: Seq<char>) -> bool {
    exists|i: int| 0 <= i < bases.len() && path_has_prefix(path, #[trigger] bases[i]@)
}

/// Calls `Path::starts_with`, which compares the two paths component by component.
/// What makes a path absolute are its first components, so that a path with an
/// absolute prefix is absolute.
#[verifier::external_body]
pub(crate) fn starts_with(path: &str, base: &str) -> (r: bool)
    ensures
        r == path_has_prefix(path@, base@),
        r && path_absolute(base@) ==> path_absolute(path@),
{
    Path::new(path).starts_with(Path::new(base))
}

/// Calls `Path::is_absolute`.
#[verifier::external_body]
pub(crate) fn is_absolute(path: &str) -> (r: bool)
    ensures
        r == path_absolute(path@),
{
    Path::new(path).is_absolute()
}

/// Calls `Path::strip_prefix`, which fails exactly where `Path::starts_with` denies
/// the prefix, and hands back the rest of the path as a text. A prefix is a run of
/// whole components at the front, so that the prefix of a prefix of the path is a
/// prefix of the path, and the call succeeds on it.
#[verifier::external_body]
pub(crate) fn strip_prefix(path: &str, base: &str) -> (r: Option<String>)
    ensures
        r.is_some() == path_has_prefix(path@, base@),
        r matches Some(rest) ==> rest@ == path_remainder(path@, base@),
        forall|between: Seq<char>|
            path_has_prefix(path@, between) && #[trigger] path_has_prefix(between, base@)
                ==> r.is_some(),
{
    Path::new(path).strip_prefix(Path::new(base)).ok().map(|p| p.to_string_lossy().into_owned())
}

/// Calls `Path::extension` and hands back the extension as a text.
#[verifier::external_body]
pub(crate) fn extension(path: &str) -> (r: Option<String>)
    ensures
        r.is_some() == path_extension(path@).is_some(),
        r matches Some(ext) ==> path_extension(path@) == Some(ext@),
{
    Path::new(path).extension().map(|e| e.to_string_lossy().into_owned())
}

/// Calls `==` of `Path`, which compares the two paths component by component.
#[verifier::external_body]
pub(crate) fn same_path(a: &str, b: &str) -> (r: bool)
    ensures
        r == path_same(a@, b@),
{
    Path::new(a) == Path::new(b)
}

/// Calls `str::contains` with a text as the pattern: whether the text occurs in the
/// haystack.
#[verifier::external_body]
pub(crate) fn contains(haystack: &str, needle: &str) -> (r: bool)
    ensures
        r == is_substring(needle@, haystack@),
{
    haystack.contains(needle)
}

/// The empty text occurs in every text.
pub proof fn lemma_empty_is_substring(haystack: Seq<char>)
    ensures
        is_substring(Seq::<char>::empty(), haystack),
{
    let needle = Seq::<char>::empty();
    assert(haystack.subrange(0int, 0int + needle.len()) =~= needle);
}

/// Whether some path of `bases` is a prefix of `path`, component by component.
pub fn starts_with_any(path: &str, bases: &Vec<String>) -> (r: bool)
    ensures
        r == any_prefix(bases@, path@),
{
    let mut i: usize = 0;
    while i < bases.len()
        invariant
            i <= bases.len(),
            forall|j: int| 0 <= j < i ==> !path_has_prefix(path@, #[trigger] bases@[j]@),
        decreases bases.len() - i,
    {
        if starts_with(path, bases[i].as_str()) {
            return true;
        }
        i += 1;
    }
    false
}

/// Whether some text of `needles` occurs in `haystack`.
pub fn contains_any(haystack: &str, needles: &Vec<String>) -> (r: bool)
    ensures
        r == any_substring(needles@, haystack@),
{
    let mut i: usize = 0;
    while i < needles.len()
        invariant
            i <= needles.len(),
            forall|j: int| 0 <= j < i ==> !is_substring(#[trigger] needles@[j]@, haystack@),
        decreases needles.len() - i,
    {
        if contains(haystack, needles[i].as_str()) {
            return true;
        }
        i += 1;
    }
    false
}

} // verus!
