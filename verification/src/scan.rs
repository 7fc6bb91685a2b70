//! Looking for compound phrases in a file name.
//!
//! A phrase is looked for as it is written, anywhere in the text scanned.
//! Each phrase that occurs yields one element, the phrase under its
//! category, and one span, that of its first occurrence.
//!
//! What is scanned is a part of a file name; the spans address the file
//! name, so that they can be taken out of the part before it is split.

use crate::catalogue::labelled;
use crate::element::ElementCategory;
use crate::element::Elements;
use crate::text::utf32_of;
use crate::token::TokenRange;
use crate::util::first_occurrence;
use crate::util::lemma_first_occurrence;
use crate::util::occurs;
use crate::util::occurs_at;
use crate::util::search_slice;
use vstd::prelude::*;

verus! {

/// Why a scan was refused.
#[derive(Debug, Clone, Copy, PartialEq, Eq, Structural)]
pub enum ScanError {
    /// The range to scan reaches past the end of the file name.
    InvalidRange,
}

/// The phrases that occur in `haystack`, in the order of `phrases`.
pub open spec fn matched_elements(
    haystack: Seq<u32>,
    phrases: Seq<(ElementCategory, Seq<u32>)>,
) -> Seq<(ElementCategory, Seq<u32>)>
    decreases phrases.len(),
{
    if phrases.len() == 0 {
        Seq::empty()
    } else {
        let earlier = matched_elements(haystack, phrases.drop_last());
        if occurs(haystack, phrases.last().1) {
            earlier.push(phrases.last())
        } else {
            earlier
        }
    }
}

/// The span of the first occurrence in `haystack` of each phrase that
/// occurs there, in the order of `phrases`. `haystack` is a part of a longer
/// text and starts at position `base` of it: the offsets count from the start
/// of that text.
pub open spec fn matched_spans(
    haystack: Seq<u32>,
    base: int,
    phrases: Seq<(ElementCategory, Seq<u32>)>,
) -> Seq<TokenRange>
    decreases phrases.len(),
{
    if phrases.len() == 0 {
        Seq::empty()
    } else {
        let earlier = matched_spans(haystack, base, phrases.drop_last());
        let text = phrases.last().1;
        match first_occurrence(haystack, text) {
            Some(at) => earlier.push(
                TokenRange { offset: (base + at) as usize, size: text.len() as usize },
            ),
            None => earlier,
        }
    }
}

/// Scanning for two lists of phrases, one after the other, finds what
/// scanning for each finds, in that order.
pub proof fn lemma_matched_concat(
    haystack: Seq<u32>,
    base: int,
    first: Seq<(ElementCategory, Seq<u32>)>,
    second: Seq<(ElementCategory, Seq<u32>)>,
)
    ensures
        matched_elements(haystack, first + second) == matched_elements(haystack, first)
            + matched_elements(haystack, second),
        matched_spans(haystack, base, first + second) == matched_spans(haystack, base, first)
            + matched_spans(haystack, base, second),
    decreases second.len(),
{
    if second.len() == 0 {
        assert(first + second =~= first);
        assert(matched_elements(haystack, first) + matched_elements(haystack, second)
            =~= matched_elements(haystack, first));
        assert(matched_spans(haystack, base, first) + matched_spans(haystack, base, second)
            =~= matched_spans(haystack, base, first));
    } else {
        lemma_matched_concat(haystack, base, first, second.drop_last());
        assert((first + second).drop_last() =~= first + second.drop_last());
        assert((first + second).last() == second.last());
        assert(matched_elements(haystack, first + second) =~= matched_elements(haystack, first)
            + matched_elements(haystack, second));
        assert(matched_spans(haystack, base, first + second) =~= matched_spans(
            haystack,
            base,
            first,
        ) + matched_spans(haystack, base, second));
    }
}

/// Where none of the phrases occurs, nothing is matched.
pub proof fn lemma_no_occurrence_no_match(
    haystack: Seq<u32>,
    base: int,
    phrases: Seq<(ElementCategory, Seq<u32>)>,
)
    requires
        forall|k: int| 0 <= k < phrases.len() ==> !occurs(haystack, #[trigger] phrases[k].1),
    ensures
        matched_elements(haystack, phrases) == Seq::<(ElementCategory, Seq<u32>)>::empty(),
        matched_spans(haystack, base, phrases) == Seq::<TokenRange>::empty(),
    decreases phrases.len(),
{
    if phrases.len() > 0 {
        assert forall|k: int| 0 <= k < phrases.drop_last().len() implies !occurs(
            haystack,
            #[trigger] phrases.drop_last()[k].1,
        ) by {
            assert(phrases.drop_last()[k] == phrases[k]);
        }
        lemma_no_occurrence_no_match(haystack, base, phrases.drop_last());
        assert(!occurs(haystack, phrases[phrases.len() - 1].1));
        lemma_first_occurrence(haystack, phrases.last().1);
    }
}

/// Elements and spans come in pairs: the scan yields as many spans as
/// elements, and each span is where the phrase of its element stands first
/// in `haystack`, moved by `base`.
pub proof fn lemma_spans_match_elements(
    haystack: Seq<u32>,
    base: int,
    phrases: Seq<(ElementCategory, Seq<u32>)>,
)
    requires
        0 <= base,
        base + haystack.len() <= usize::MAX,
    ensures
        matched_spans(haystack, base, phrases).len() == matched_elements(haystack, phrases).len(),
        forall|k: int|
            0 <= k < matched_spans(haystack, base, phrases).len() ==> {
                let span = #[trigger] matched_spans(haystack, base, phrases)[k];
                let text = matched_elements(haystack, phrases)[k].1;
                &&& span.size == text.len()
                &&& base <= span.offset
                &&& span.end() <= base + haystack.len()
                &&& occurs_at(haystack, text, span.offset - base)
                &&& forall|j: int| j < span.offset - base ==> !occurs_at(haystack, text, j)
            },
    decreases phrases.len(),
{
    if phrases.len() > 0 {
        lemma_spans_match_elements(haystack, base, phrases.drop_last());
        lemma_first_occurrence(haystack, phrases.last().1);
    }
}

/// Every span that a scan of a part of a text yields lies in that part, and
/// the text holds there the phrase of the element that came with the span.
pub proof fn lemma_spans_address_text(
    text: Seq<u32>,
    range: TokenRange,
    phrases: Seq<(ElementCategory, Seq<u32>)>,
)
    requires
        range.within(text.len()),
        text.len() <= usize::MAX,
    ensures
        forall|k: int|
            0 <= k < matched_spans(range.part_of(text), range.offset as int, phrases).len() ==> {
                let span = #[trigger] matched_spans(
                    range.part_of(text),
                    range.offset as int,
                    phrases,
                )[k];
                &&& range.offset <= span.offset
                &&& span.end() <= range.end()
                &&& span.part_of(text) == matched_elements(range.part_of(text), phrases)[k].1
            },
{
    let scanned = range.part_of(text);
    let base = range.offset as int;
    lemma_spans_match_elements(scanned, base, phrases);
    assert forall|k: int| 0 <= k < matched_spans(scanned, base, phrases).len() implies {
        let span = #[trigger] matched_spans(scanned, base, phrases)[k];
        &&& range.offset <= span.offset
        &&& span.end() <= range.end()
        &&& span.part_of(text) == matched_elements(scanned, phrases)[k].1
    } by {
        let span = matched_spans(scanned, base, phrases)[k];
        let phrase = matched_elements(scanned, phrases)[k].1;
        assert(occurs_at(scanned, phrase, span.offset - base));
        assert(span.part_of(text) =~= scanned.subrange(
            span.offset - base,
            span.offset - base + phrase.len(),
        ));
    }
}

/// Looks for each of `words` in `haystack` and records those that occur:
/// the word under `category` in `elements`, the span of its first occurrence
/// in `spans`. `haystack` starts at position `base` of the text that the
/// spans address.
pub fn scan_words(
    haystack: &[u32],
    base: usize,
    category: ElementCategory,
    words: &[&'static str],
    elements: &mut Elements,
    spans: &mut Vec<TokenRange>,
)
    requires
        base + haystack@.len() <= usize::MAX,
    ensures
        final(elements)@ == old(elements)@ + matched_elements(
            haystack@,
            labelled(category, words@),
        ),
        final(spans)@ == old(spans)@ + matched_spans(
            haystack@,
            base as int,
            labelled(category, words@),
        ),
{
    let ghost phrases = labelled(category, words@);
    let mut i: usize = 0;
    assert(phrases.take(0) =~= Seq::empty());
    assert(elements@ + matched_elements(haystack@, phrases.take(0)) =~= elements@);
    assert(spans@ + matched_spans(haystack@, base as int, phrases.take(0)) =~= spans@);
    while i < words.len()
        invariant
            i <= words.len(),
            base + haystack@.len() <= usize::MAX,
            phrases == labelled(category, words@),
            elements@ == old(elements)@ + matched_elements(haystack@, phrases.take(i as int)),
            spans@ == old(spans)@ + matched_spans(haystack@, base as int, phrases.take(i as int)),
        decreases words.len() - i,
    {
        let phrase = utf32_of(words[i]);
        proof {
            assert(phrases.take(i + 1).drop_last() =~= phrases.take(i as int));
            assert(phrases.take(i + 1).last() == phrases[i as int]);
            lemma_first_occurrence(haystack@, phrases[i as int].1);
        }
        match search_slice(haystack, phrase.as_slice()) {
            Some(span) => {
                elements.insert(category, phrase);
                spans.push(TokenRange::new(base + span.offset, span.size));
            },
            None => {},
        }
        proof {
            assert(elements@ =~= old(elements)@ + matched_elements(
                haystack@,
                phrases.take(i + 1),
            ));
            assert(spans@ =~= old(spans)@ + matched_spans(
                haystack@,
                base as int,
                phrases.take(i + 1),
            ));
        }
        i += 1;
    }
    assert(phrases.take(i as int) =~= phrases);
}

} // verus!
