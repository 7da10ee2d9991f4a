//! Paths of files: which a scan leaves out, and which are fleet or missile
//! files.
//!
//! Patterns are matched by `glob` and extensions are found by std, both by
//! the platform's rules for the parts of a path: of those nothing is stated.
//! Stated is what holds anywhere: an extension stands in its path after a dot.

use vstd::prelude::*;
use crate::text::str_eq;

verus! {

/// A pattern as the `glob` crate holds it; nothing is known of its content.
#[verifier::external_type_specification]
#[verifier::external_body]
pub struct ExPattern(glob::Pattern);

/// `glob::Pattern::matches`: whether a path matches a pattern, with the
/// default options.
#[verifier::external_body]
pub(crate) fn pattern_matches(pattern: &glob::Pattern, path: &str) -> bool {
    pattern.matches(path)
}

/// `std::path::Path::extension`: the extension of the file name of a path,
/// where it has one that is UTF-8.
#[verifier::external_body]
pub(crate) fn extension(path: &str) -> Option<&str> {
    std::path::Path::new(path).extension().and_then(|e| e.to_str())
}

/// Whether a scan leaves out a path of which `matched` tells, pattern by
/// pattern, whether it matches: whether it matches one of them.
pub fn left_out(matched: &Vec<bool>) -> (excluded: bool)
    ensures
        excluded == exists|i: int| 0 <= i < matched.len() && #[trigger] matched[i],
{
    let mut i: usize = 0;
    while i < matched.len()
        invariant
            i <= matched.len(),
            forall|k: int| 0 <= k < i ==> !#[trigger] matched[k],
        decreases matched.len() - i,
    {
        if matched[i] {
            return true;
        }
        i += 1;
    }
    false
}

/// Whether a scan leaves a path out: whether it matches one of the
/// patterns.
pub fn is_excluded(path: &str, excluded_patterns: &Vec<glob::Pattern>) -> (excluded: bool)
    ensures
        excluded_patterns.len() == 0 ==> !excluded,
{
    let mut matched: Vec<bool> = Vec::new();
    let mut i: usize = 0;
    while i < excluded_patterns.len()
        invariant
            i <= excluded_patterns.len(),
            matched.len() == i,
        decreases excluded_patterns.len() - i,
    {
        matched.push(pattern_matches(&excluded_patterns[i], path));
        i += 1;
    }
    left_out(&matched)
}

/// Whether an extension, as found for a path, is the one given.
pub fn is_extension(found: Option<&str>, wanted: &str) -> (same: bool)
    ensures
        same == (found matches Some(e) && e@ == wanted@),
{
    match found {
        Some(e) => str_eq(e, wanted),
        None => false,
    }
}

/// Whether the extension of a path is `fleet`; never where no `.fleet` stands in it.
pub fn is_fleet_file(path: &str) -> (fleet: bool)
    ensures !holds(path@, ".fleet"@) ==> !fleet,
{
    holds_text(path, ".fleet") && is_extension(extension(path), "fleet")
}
/// Whether the extension of a path is `missile`; never where no `.missile` stands in it.
pub fn is_missile_file(path: &str) -> (missile: bool)
    ensures !holds(path@, ".missile"@) ==> !missile,
{
    holds_text(path, ".missile") && is_extension(extension(path), "missile")
}

/// Whether `part` stands somewhere in `text`.
pub open spec fn holds(text: Seq<char>, part: Seq<char>) -> bool {
    exists|i: int| crate::tags::stands_at(text, part, i)
}

/// Where a search from `from` on finds nothing, the pattern stands at no
/// place from there on.
pub proof fn lemma_not_found(s: Seq<char>, pattern: Seq<char>, from: int)
    requires
        0 <= from,
        pattern.len() > 0,
        crate::tags::find_from(s, pattern, from) == -1,
    ensures
        forall|i: int| from <= i ==> !crate::tags::stands_at(s, pattern, i),
    decreases s.len() - from,
{
    if from + pattern.len() <= s.len() {
        lemma_not_found(s, pattern, from + 1);
    }
}

/// Whether `part` stands somewhere in `text`.
pub fn holds_text(text: &str, part: &str) -> (res: bool)
    ensures
        res == holds(text@, part@),
{
    let s = crate::tags::chars_of(text);
    let pattern = crate::tags::chars_of(part);
    if pattern.len() == 0 {
        proof {
            assert(s@.subrange(0, 0) =~= pattern@);
            assert(crate::tags::stands_at(s@, pattern@, 0));
        }
        return true;
    }
    match crate::tags::find(&s, &pattern, 0) {
        Some(place) => {
            proof {
                crate::tags::lemma_found(s@, pattern@, 0);
                assert(crate::tags::stands_at(s@, pattern@, place as int));
            }
            true
        },
        None => {
            proof {
                lemma_not_found(s@, pattern@, 0);
            }
            false
        },
    }
}

} // verus!
