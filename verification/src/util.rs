//! Substring search over code points.

use crate::text::str_points;
use crate::token::TokenRange;
use subslice::SubsliceExt;
use vstd::prelude::*;
use widestring::Utf32Str;

verus! {

/// Whether `needle` stands in `haystack` at position `at`, code point for
/// code point.
pub open spec fn occurs_at(haystack: Seq<u32>, needle: Seq<u32>, at: int) -> bool {
    &&& 0 <= at
    &&& at + needle.len() <= haystack.len()
    &&& haystack.subrange(at, at + needle.len()) == needle
}

/// Whether `needle` stands anywhere in `haystack`.
pub open spec fn occurs(haystack: Seq<u32>, needle: Seq<u32>) -> bool {
    exists|at: int| occurs_at(haystack, needle, at)
}

/// The least position at or after `from` at which `needle` stands in
/// `haystack`.
pub open spec fn first_occurrence_from(
    haystack: Seq<u32>,
    needle: Seq<u32>,
    from: int,
) -> Option<int>
    decreases haystack.len() - from + 1,
{
    if from < 0 || from + needle.len() > haystack.len() {
        None
    } else if occurs_at(haystack, needle, from) {
        Some(from)
    } else {
        first_occurrence_from(haystack, needle, from + 1)
    }
}

/// The least position at which `needle` stands in `haystack`.
pub open spec fn first_occurrence(haystack: Seq<u32>, needle: Seq<u32>) -> Option<int> {
    first_occurrence_from(haystack, needle, 0)
}

/// The span of the first occurrence of `needle` in `haystack`.
pub open spec fn span_of(haystack: Seq<u32>, needle: Seq<u32>) -> Option<TokenRange> {
    match first_occurrence(haystack, needle) {
        Some(at) => Some(TokenRange { offset: at as usize, size: needle.len() as usize }),
        None => None,
    }
}

/// What `first_occurrence_from` returns is the least occurrence at or after
/// `from`, and it returns nothing only where there is none.
pub proof fn lemma_first_occurrence_from(haystack: Seq<u32>, needle: Seq<u32>, from: int)
    requires
        0 <= from,
    ensures
        match first_occurrence_from(haystack, needle, from) {
            Some(at) => {
                &&& from <= at
                &&& occurs_at(haystack, needle, at)
                &&& forall|j: int| from <= j < at ==> !occurs_at(haystack, needle, j)
            },
            None => forall|j: int| from <= j ==> !occurs_at(haystack, needle, j),
        },
    decreases haystack.len() - from + 1,
{
    if from + needle.len() > haystack.len() {
    } else if occurs_at(haystack, needle, from) {
    } else {
        lemma_first_occurrence_from(haystack, needle, from + 1);
    }
}

/// The first occurrence is an occurrence with none before it; there is no
/// first occurrence exactly where the needle does not occur at all.
pub proof fn lemma_first_occurrence(haystack: Seq<u32>, needle: Seq<u32>)
    ensures
        match first_occurrence(haystack, needle) {
            Some(at) => {
                &&& occurs_at(haystack, needle, at)
                &&& forall|j: int| j < at ==> !occurs_at(haystack, needle, j)
            },
            None => !occurs(haystack, needle),
        },
        first_occurrence(haystack, needle) is Some <==> occurs(haystack, needle),
{
    lemma_first_occurrence_from(haystack, needle, 0);
}

/// An occurrence with none before it is the first occurrence.
pub proof fn lemma_least_is_first(haystack: Seq<u32>, needle: Seq<u32>, at: int)
    requires
        occurs_at(haystack, needle, at),
        forall|j: int| 0 <= j < at ==> !occurs_at(haystack, needle, j),
    ensures
        first_occurrence(haystack, needle) == Some(at),
{
    lemma_first_occurrence_from(haystack, needle, 0);
}

/// `subslice::SubsliceExt::find` on slices: the index at which the first
/// subslice equal to `needle` starts, or `None` where `haystack` has no such
/// subslice. An empty needle is found at index 0.
#[verifier::external_body]
fn find_subslice(haystack: &[u32], needle: &[u32]) -> (found: Option<usize>)
    ensures
        match found {
            Some(at) => {
                &&& occurs_at(haystack@, needle@, at as int)
                &&& forall|j: int| 0 <= j < at ==> !occurs_at(haystack@, needle@, j)
            },
            None => forall|j: int| !occurs_at(haystack@, needle@, j),
        },
{
    SubsliceExt::find(haystack, needle)
}

/// Finds the first occurrence of `needle` in `haystack` and returns its
/// span, or `None` where `needle` does not occur. Code points are compared
/// as they are: nothing is normalised and case is not folded.
pub fn search_slice(haystack: &[u32], needle: &[u32]) -> (found: Option<TokenRange>)
    ensures
        found == span_of(haystack@, needle@),
        found is Some <==> occurs(haystack@, needle@),
        found matches Some(span) ==> {
            &&& span.size == needle@.len()
            &&& span.within(haystack@.len())
            &&& occurs_at(haystack@, needle@, span.offset as int)
            &&& forall|j: int| j < span.offset ==> !occurs_at(haystack@, needle@, j)
        },
{
    proof {
        lemma_first_occurrence(haystack@, needle@);
    }
    match find_subslice(haystack, needle) {
        Some(offset) => {
            proof {
                lemma_least_is_first(haystack@, needle@, offset as int);
            }
            Some(TokenRange::new(offset, needle.len()))
        },
        None => None,
    }
}

/// Finds the first occurrence of `needle` in `haystack`, both taken as the
/// code points they hold.
pub fn search(haystack: &Utf32Str, needle: &Utf32Str) -> (found: Option<TokenRange>)
    ensures
        found == span_of(str_points(haystack), str_points(needle)),
{
    search_slice(haystack.as_slice(), needle.as_slice())
}

} // verus!
