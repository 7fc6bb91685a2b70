//! UTF-32 strings as sequences of code points.
//!
//! The string types are `widestring`'s. Verus cannot look inside them, so
//! this module names what a string holds and states, without proof, how the
//! few `widestring` functions that the library calls relate to those names.

use vstd::prelude::*;
use widestring::Utf32Str;
use widestring::Utf32String;

verus! {

/// `widestring::Utf32Str`, a borrowed UTF-32 string. Opaque to the verifier.
#[verifier::external_type_specification]
#[verifier::external_body]
pub struct ExUtf32Str(Utf32Str);

/// `widestring::Utf32String`, an owned UTF-32 string. Opaque to the verifier.
#[verifier::external_type_specification]
#[verifier::external_body]
pub struct ExUtf32String(Utf32String);

/// The code points that a borrowed string holds, first to last.
pub uninterp spec fn str_points(s: &Utf32Str) -> Seq<u32>;

/// The code points that an owned string holds, first to last.
pub uninterp spec fn string_points(s: Utf32String) -> Seq<u32>;

/// The code points of a `str`: each `char` as its scalar value.
pub open spec fn encode(s: Seq<char>) -> Seq<u32> {
    Seq::new(s.len(), |i: int| s[i] as u32)
}

/// The code points of each string, in the order of the strings.
pub open spec fn points_of_all(strings: Seq<&Utf32Str>) -> Seq<Seq<u32>> {
    Seq::new(strings.len(), |i: int| str_points(strings[i]))
}

/// `Utf32Str::as_slice` returns the string's code points as a slice: the
/// elements of the slice are exactly what the string holds.
pub assume_specification[ Utf32Str::as_slice ](s: &Utf32Str) -> (points: &[u32])
    ensures
        points@ == str_points(s),
;

/// `Utf32String::as_slice` returns the string's code points as a slice: the
/// elements of the slice are exactly what the string holds.
pub assume_specification[ Utf32String::as_slice ](s: &Utf32String) -> (points: &[u32])
    ensures
        points@ == string_points(*s),
;

/// `ToOwned::to_owned` on a `Utf32Str` copies the string: the owned string
/// holds the same code points as the borrowed one.
#[verifier::external_body]
pub(crate) fn owned_copy(s: &Utf32Str) -> (owned: Utf32String)
    ensures
        string_points(owned) == str_points(s),
{
    s.to_owned()
}

/// `Utf32String::from_str` re-encodes a `str` as UTF-32: the result holds one
/// code point for each `char` of the input, in the same order.
#[verifier::external_body]
pub(crate) fn utf32_of(s: &str) -> (text: Utf32String)
    ensures
        string_points(text) == encode(s@),
{
    Utf32String::from_str(s)
}

/// Whether two slices hold the same code points.
pub fn same_points(a: &[u32], b: &[u32]) -> (same: bool)
    ensures
        same == (a@ == b@),
{
    if a.len() != b.len() {
        return false;
    }
    let mut i: usize = 0;
    while i < a.len()
        invariant
            a.len() == b.len(),
            i <= a.len(),
            forall|j: int| 0 <= j < i ==> a@[j] == b@[j],
        decreases a.len() - i,
    {
        if a[i] != b[i] {
            return false;
        }
        i += 1;
    }
    assert(a@ =~= b@);
    true
}

} // verus!
