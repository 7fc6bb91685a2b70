//! Categories, and the elements recorded while one file name is classified.

use crate::text::same_points;
use crate::text::str_points;
use crate::text::string_points;
use vstd::prelude::*;
use widestring::Utf32Str;
use widestring::Utf32String;

verus! {

/// What a part of a file name can be. `Unknown` marks a part that has not
/// been classified; no keyword is registered under it.
#[derive(Debug, Clone, Copy, PartialEq, Eq, Hash, Structural)]
pub enum ElementCategory {
    AnimeSeason,
    AnimeSeasonPrefix,
    AnimeTitle,
    AnimeType,
    AnimeYear,
    AudioTerm,
    DeviceCompatibility,
    EpisodeNumber,
    EpisodeNumberAlt,
    EpisodePrefix,
    EpisodeTitle,
    FileChecksum,
    FileExtension,
    FileName,
    Language,
    Other,
    ReleaseGroup,
    ReleaseInformation,
    ReleaseVersion,
    Source,
    Subtitles,
    VideoResolution,
    VideoTerm,
    VolumeNumber,
    VolumePrefix,
    Unknown,
}

/// The texts recorded under `category`, in the order in which they were
/// recorded.
pub open spec fn values_of(
    elements: Seq<(ElementCategory, Seq<u32>)>,
    category: ElementCategory,
) -> Seq<Seq<u32>>
    decreases elements.len(),
{
    if elements.len() == 0 {
        Seq::empty()
    } else {
        let earlier = values_of(elements.drop_last(), category);
        if elements.last().0 == category {
            earlier.push(elements.last().1)
        } else {
            earlier
        }
    }
}

/// The texts that a prefix of the elements holds under a category are a
/// prefix of the texts that all of them hold under it.
pub proof fn lemma_values_of_prefix(
    elements: Seq<(ElementCategory, Seq<u32>)>,
    category: ElementCategory,
    n: int,
)
    requires
        0 <= n <= elements.len(),
    ensures
        values_of(elements.take(n), category).is_prefix_of(values_of(elements, category)),
    decreases elements.len() - n,
{
    if n == elements.len() {
        assert(elements.take(n) =~= elements);
    } else {
        lemma_values_of_prefix(elements, category, n + 1);
        assert(elements.take(n + 1).drop_last() =~= elements.take(n));
    }
}

/// The elements found in one file name: pairs of a category and the text
/// matched, in the order in which they were recorded. A category may occur
/// any number of times.
pub struct Elements {
    elements: Vec<(ElementCategory, Utf32String)>,
}

impl View for Elements {
    type V = Seq<(ElementCategory, Seq<u32>)>;

    closed spec fn view(&self) -> Self::V {
        Seq::new(
            self.elements@.len(),
            |i: int| (self.elements@[i].0, string_points(self.elements@[i].1)),
        )
    }
}

impl Elements {
    pub fn new() -> (elements: Self)
        ensures
            elements@ == Seq::<(ElementCategory, Seq<u32>)>::empty(),
    {
        Elements { elements: Vec::new() }
    }

    /// The number of elements recorded.
    pub fn len(&self) -> (len: usize)
        ensures
            len == self@.len(),
    {
        self.elements.len()
    }

    pub fn is_empty(&self) -> (empty: bool)
        ensures
            empty == (self@.len() == 0),
    {
        self.elements.len() == 0
    }

    /// Records `text` under `category`, after everything recorded before.
    pub fn insert(&mut self, category: ElementCategory, text: Utf32String)
        ensures
            final(self)@ == old(self)@.push((category, string_points(text))),
    {
        self.elements.push((category, text));
        assert(self@ =~= old(self)@.push((category, string_points(text))));
    }

    /// The text recorded first under `category`.
    pub fn get(&self, category: ElementCategory) -> (found: Option<&Utf32String>)
        ensures
            match found {
                Some(text) => {
                    &&& values_of(self@, category).len() > 0
                    &&& values_of(self@, category)[0] == string_points(*text)
                },
                None => values_of(self@, category).len() == 0,
            },
    {
        let mut i: usize = 0;
        while i < self.elements.len()
            invariant
                i <= self.elements.len(),
                values_of(self@.take(i as int), category).len() == 0,
            decreases self.elements.len() - i,
        {
            proof {
                assert(self@.take(i + 1).drop_last() =~= self@.take(i as int));
            }
            if self.elements[i].0 == category {
                proof {
                    lemma_values_of_prefix(self@, category, i + 1);
                    let upto = values_of(self@.take(i + 1), category);
                    assert(self@.take(i + 1).last() == self@[i as int]);
                    assert(upto.len() == 1);
                    assert(upto[0] == string_points(self.elements@[i as int].1));
                    assert(values_of(self@, category)[0] == upto[0]);
                }
                return Some(&self.elements[i].1);
            }
            i += 1;
        }
        assert(self@.take(i as int) =~= self@);
        None
    }

    /// Every text recorded under `category`, in the order of recording.
    pub fn get_all(&self, category: ElementCategory) -> (found: Vec<&Utf32String>)
        ensures
            found@.len() == values_of(self@, category).len(),
            forall|k: int|
                0 <= k < found@.len() ==> string_points(*#[trigger] found@[k]) == values_of(
                    self@,
                    category,
                )[k],
    {
        let mut found: Vec<&Utf32String> = Vec::new();
        let mut i: usize = 0;
        while i < self.elements.len()
            invariant
                i <= self.elements.len(),
                found@.len() == values_of(self@.take(i as int), category).len(),
                forall|k: int|
                    0 <= k < found@.len() ==> string_points(*#[trigger] found@[k]) == values_of(
                        self@.take(i as int),
                        category,
                    )[k],
            decreases self.elements.len() - i,
        {
            proof {
                assert(self@.take(i + 1).drop_last() =~= self@.take(i as int));
            }
            if self.elements[i].0 == category {
                found.push(&self.elements[i].1);
            }
            i += 1;
        }
        assert(self@.take(i as int) =~= self@);
        found
    }

    /// Whether `text` was recorded under `category`.
    pub fn contains(&self, category: ElementCategory, text: &Utf32Str) -> (present: bool)
        ensures
            present == self@.contains((category, str_points(text))),
    {
        let wanted = text.as_slice();
        let mut i: usize = 0;
        while i < self.elements.len()
            invariant
                i <= self.elements.len(),
                wanted@ == str_points(text),
                forall|j: int| 0 <= j < i ==> self@[j] != (category, str_points(text)),
            decreases self.elements.len() - i,
        {
            let element = &self.elements[i];
            if element.0 == category && same_points(element.1.as_slice(), wanted) {
                assert(self@[i as int] == (category, str_points(text)));
                return true;
            }
            i += 1;
        }
        false
    }
}

} // verus!
