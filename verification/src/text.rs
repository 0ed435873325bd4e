//! Substring and suffix tests on file names.

use vstd::prelude::*;

verus! {

/// `needle` occurs in `haystack` as a contiguous run of characters.
pub open spec fn occurs_in(needle: Seq<char>, haystack: Seq<char>) -> bool {
    exists|start: int|
        0 <= start && start + needle.len() <= haystack.len() && #[trigger] haystack.subrange(
            start,
            start + needle.len(),
        ) == needle
}

/// Calls `str::contains` with a string pattern. Trusted: the result is `true`
/// exactly when `needle` occurs in `haystack` as a contiguous run.
#[verifier::external_body]
pub(crate) fn contains_str(haystack: &str, needle: &str) -> (found: bool)
    ensures
        found == occurs_in(needle@, haystack@),
{
    haystack.contains(needle)
}

/// Calls `str::ends_with` with a string pattern. Trusted: the result is
/// `true` exactly when `suffix` is the tail of `text`.
#[verifier::external_body]
pub(crate) fn ends_with_str(text: &str, suffix: &str) -> (found: bool)
    ensures
        found == suffix@.is_suffix_of(text@),
{
    text.ends_with(suffix)
}

/// The characters that end the stem of a file name: the first tag begins
/// with `$`, the extension with `.`.
pub open spec fn ends_stem(c: char) -> bool {
    c == '$' || c == '.'
}

/// The stem of a file name: what stands before its first `$` or `.`, or
/// the whole name where it has neither.
pub fn stripped_file_name(file_name: &str) -> (stem: String)
    ensures
        stem@.len() <= file_name@.len(),
        stem@ == file_name@.subrange(0, stem@.len() as int),
        forall|i: int| 0 <= i < stem@.len() ==> !ends_stem(#[trigger] file_name@[i]),
        stem@.len() < file_name@.len() ==> ends_stem(file_name@[stem@.len() as int]),
{
    let mut end: usize = file_name.unicode_len();
    let mut i: usize = 0;
    while i < end
        invariant
            i <= end <= file_name@.len(),
            forall|k: int| 0 <= k < i ==> !ends_stem(#[trigger] file_name@[k]),
            end < file_name@.len() ==> i == end && ends_stem(file_name@[end as int]),
        decreases end - i,
    {
        let c = file_name.get_char(i);
        if c == '$' || c == '.' {
            end = i;
        } else {
            i = i + 1;
        }
    }
    file_name.substring_char(0, end).to_owned()
}

} // verus!
