//! Keywords and their matching policies.

use crate::catalogue::catalogue;
use crate::catalogue::catalogue_upto;
use crate::catalogue::encode_all;
use crate::catalogue::keyword_list;
use crate::catalogue::lemma_catalogue_never_unknown;
use crate::catalogue::lemma_catalogue_wf;
use crate::catalogue::labelled;
use crate::catalogue::phrases;
use crate::catalogue::ANIME_TYPES;
use crate::catalogue::ANIME_TYPES_INVALID;
use crate::catalogue::ANIME_TYPES_UNSEARCHABLE;
use crate::catalogue::AUDIO_PHRASES;
use crate::catalogue::AUDIO_TERMS;
use crate::catalogue::AUDIO_TERMS_UNIDENTIFIABLE;
use crate::catalogue::DEVICES;
use crate::catalogue::DEVICES_UNIDENTIFIABLE;
use crate::catalogue::EPISODE_PREFIXES;
use crate::catalogue::EPISODE_PREFIXES_INVALID;
use crate::catalogue::FILE_EXTENSIONS;
use crate::catalogue::FILE_EXTENSIONS_INVALID;
use crate::catalogue::KEYWORD_LISTS;
use crate::catalogue::LANGUAGES;
use crate::catalogue::LANGUAGES_UNIDENTIFIABLE;
use crate::catalogue::OTHER_TERMS;
use crate::catalogue::RELEASE_GROUPS;
use crate::catalogue::RELEASE_INFORMATION;
use crate::catalogue::RELEASE_INFORMATION_UNIDENTIFIABLE;
use crate::catalogue::RELEASE_VERSIONS;
use crate::catalogue::RESOLUTION_PHRASES;
use crate::catalogue::SEASON_PREFIXES;
use crate::catalogue::SOURCES;
use crate::catalogue::SOURCE_PHRASES;
use crate::catalogue::SUBTITLES;
use crate::catalogue::VIDEO_PHRASES;
use crate::catalogue::VIDEO_TERMS;
use crate::catalogue::VOLUME_PREFIXES;
use crate::dictionary::lemma_register_wf;
use crate::dictionary::Dictionary;
use crate::element::ElementCategory;
use crate::element::Elements;
use crate::scan::lemma_matched_concat;
use crate::scan::lemma_no_occurrence_no_match;
use crate::scan::matched_elements;
use crate::scan::matched_spans;
use crate::scan::scan_words;
use crate::scan::ScanError;
use crate::text::owned_copy;
use crate::text::points_of_all;
use crate::text::same_points;
use crate::text::str_points;
use crate::text::string_points;
use crate::text::utf32_of;
use crate::token::TokenRange;
use crate::util::occurs;
use vstd::prelude::*;
use widestring::Utf32Str;
use widestring::Utf32String;

verus! {

/// How a match on a keyword may be used.
///
/// - `identifiable`: the match is reported as an element of the keyword's
///   category. Where it is `false` the match only tells the caller what the
///   text is not.
/// - `searchable`: the keyword may be looked for inside a longer text. Where
///   it is `false` only a whole token may match.
/// - `valid`: the keyword can stand alone as a token. Where it is `false` the
///   match needs support from what surrounds it.
#[derive(Debug, Clone, Copy, PartialEq, Eq, Hash, Structural)]
pub struct KeywordOptions {
    pub identifiable: bool,
    pub searchable: bool,
    pub valid: bool,
}

impl KeywordOptions {
    pub fn new(identifiable: bool, searchable: bool, valid: bool) -> (options: Self)
        ensures
            options == (KeywordOptions { identifiable, searchable, valid }),
    {
        KeywordOptions { identifiable, searchable, valid }
    }

    pub open spec fn spec_const_default() -> KeywordOptions {
        KeywordOptions { identifiable: true, searchable: true, valid: true }
    }

    /// The policy of an ordinary keyword: identifiable, searchable and valid.
    #[verifier::when_used_as_spec(spec_const_default)]
    pub fn const_default() -> (options: Self)
        ensures
            options == Self::spec_const_default(),
    {
        KeywordOptions { identifiable: true, searchable: true, valid: true }
    }

    pub open spec fn spec_invalid() -> KeywordOptions {
        KeywordOptions { identifiable: true, searchable: true, valid: false }
    }

    /// Identifiable and searchable, but not valid alone.
    #[verifier::when_used_as_spec(spec_invalid)]
    pub fn invalid() -> (options: Self)
        ensures
            options == Self::spec_invalid(),
    {
        KeywordOptions { identifiable: true, searchable: true, valid: false }
    }

    pub open spec fn spec_unidentifiable() -> KeywordOptions {
        KeywordOptions { identifiable: false, searchable: true, valid: true }
    }

    /// Searchable and valid, but never reported.
    #[verifier::when_used_as_spec(spec_unidentifiable)]
    pub fn unidentifiable() -> (options: Self)
        ensures
            options == Self::spec_unidentifiable(),
    {
        KeywordOptions { identifiable: false, searchable: true, valid: true }
    }

    pub open spec fn spec_unidentifiable_invalid() -> KeywordOptions {
        KeywordOptions { identifiable: false, searchable: true, valid: false }
    }

    /// Searchable, but neither reported nor valid alone.
    #[verifier::when_used_as_spec(spec_unidentifiable_invalid)]
    pub fn unidentifiable_invalid() -> (options: Self)
        ensures
            options == Self::spec_unidentifiable_invalid(),
    {
        KeywordOptions { identifiable: false, searchable: true, valid: false }
    }

    pub open spec fn spec_unidentifiable_unsearchable() -> KeywordOptions {
        KeywordOptions { identifiable: false, searchable: false, valid: true }
    }

    /// Valid as a whole token only, and never reported.
    #[verifier::when_used_as_spec(spec_unidentifiable_unsearchable)]
    pub fn unidentifiable_unsearchable() -> (options: Self)
        ensures
            options == Self::spec_unidentifiable_unsearchable(),
    {
        KeywordOptions { identifiable: false, searchable: false, valid: true }
    }
}

impl Default for KeywordOptions {
    fn default() -> (options: Self)
        ensures
            options == KeywordOptions::const_default(),
    {
        Self::const_default()
    }
}

/// What the dictionary holds for a keyword text: the category under which it
/// was registered, and how a match on it may be used.
#[derive(Debug, Clone, Copy, PartialEq, Eq, Structural)]
pub struct Keyword {
    pub category: ElementCategory,
    pub options: KeywordOptions,
}

/// One row of a table: a keyword text and what is registered for it.
struct Entry {
    text: Utf32String,
    keyword: Keyword,
}

/// The table that a list of rows stands for. Where a text occurs in two
/// rows, the earlier row decides.
spec fn table_of(entries: Seq<Entry>) -> Map<Seq<u32>, Keyword>
    decreases entries.len(),
{
    if entries.len() == 0 {
        Map::empty()
    } else {
        let earlier = table_of(entries.drop_last());
        let text = string_points(entries.last().text);
        if earlier.contains_key(text) {
            earlier
        } else {
            earlier.insert(text, entries.last().keyword)
        }
    }
}

/// A text that no row holds is not in the table.
proof fn lemma_absent(entries: Seq<Entry>, text: Seq<u32>)
    requires
        forall|j: int| 0 <= j < entries.len() ==> string_points(#[trigger] entries[j].text) != text,
    ensures
        !table_of(entries).contains_key(text),
    decreases entries.len(),
{
    if entries.len() > 0 {
        assert forall|j: int| 0 <= j < entries.drop_last().len() implies string_points(
            #[trigger] entries.drop_last()[j].text,
        ) != text by {
            assert(entries.drop_last()[j] == entries[j]);
        }
        lemma_absent(entries.drop_last(), text);
        assert(string_points(entries[entries.len() - 1].text) != text);
    }
}

/// The table maps a text to the keyword of the first row that holds it.
proof fn lemma_present(entries: Seq<Entry>, text: Seq<u32>, i: int)
    requires
        0 <= i < entries.len(),
        string_points(entries[i].text) == text,
        forall|j: int| 0 <= j < i ==> string_points(#[trigger] entries[j].text) != text,
    ensures
        table_of(entries).contains_key(text),
        table_of(entries)[text] == entries[i].keyword,
    decreases entries.len(),
{
    if i == entries.len() - 1 {
        assert forall|j: int| 0 <= j < entries.drop_last().len() implies string_points(
            #[trigger] entries.drop_last()[j].text,
        ) != text by {
            assert(entries.drop_last()[j] == entries[j]);
        }
        lemma_absent(entries.drop_last(), text);
    } else {
        assert(entries.drop_last()[i] == entries[i]);
        assert forall|j: int| 0 <= j < i implies string_points(
            #[trigger] entries.drop_last()[j].text,
        ) != text by {
            assert(entries.drop_last()[j] == entries[j]);
        }
        lemma_present(entries.drop_last(), text, i);
    }
}

/// The first row of `entries` that holds `text`.
fn position(entries: &Vec<Entry>, text: &[u32]) -> (found: Option<usize>)
    ensures
        match found {
            Some(i) => {
                &&& i < entries@.len()
                &&& string_points(entries@[i as int].text) == text@
                &&& forall|j: int|
                    0 <= j < i ==> string_points(#[trigger] entries@[j].text) != text@
            },
            None => forall|j: int|
                0 <= j < entries@.len() ==> string_points(#[trigger] entries@[j].text) != text@,
        },
{
    let mut i: usize = 0;
    while i < entries.len()
        invariant
            i <= entries@.len(),
            forall|j: int| 0 <= j < i ==> string_points(#[trigger] entries@[j].text) != text@,
        decreases entries@.len() - i,
    {
        if same_points(entries[i].text.as_slice(), text) {
            return Some(i);
        }
        i += 1;
    }
    None
}

/// The keyword dictionary: which texts are keywords, of which category, and
/// how a match on each may be used.
///
/// File extensions are kept apart from all other keywords, and a lookup goes
/// to one of the two tables by the category asked for. So one text can be
/// registered twice, once as a file extension and once as something else.
pub struct KeywordManager {
    key: Vec<Entry>,
    ext: Vec<Entry>,
}

impl View for KeywordManager {
    type V = Dictionary;

    closed spec fn view(&self) -> Dictionary {
        Dictionary { general: table_of(self.key@), extension: table_of(self.ext@) }
    }
}

impl KeywordManager {
    /// A dictionary without keywords.
    pub fn new() -> (dictionary: Self)
        ensures
            dictionary@ == Dictionary::empty(),
            dictionary@.wf(),
    {
        KeywordManager { key: Vec::new(), ext: Vec::new() }
    }

    /// The dictionary of the curated keywords.
    ///
    /// The dictionary is returned by value and is not changed by any lookup:
    /// build it once and hand out references to it.
    pub fn instance() -> (dictionary: Self)
        ensures
            dictionary@ == catalogue(),
            dictionary@.wf(),
            forall|text: Seq<u32>| !dictionary@.registered_under(ElementCategory::Unknown, text),
    {
        let mut this = KeywordManager::new();
        let mut i: usize = 0;
        while i < KEYWORD_LISTS
            invariant
                i <= KEYWORD_LISTS,
                this@ == catalogue_upto(i),
            decreases KEYWORD_LISTS - i,
        {
            this.add_list(i);
            i += 1;
        }
        proof {
            lemma_catalogue_wf(KEYWORD_LISTS);
            lemma_catalogue_never_unknown(KEYWORD_LISTS);
        }
        this
    }

    /// Registers each of `keywords` under `cat` with the policy `options`,
    /// first to last, in the table to which `cat` is routed.
    ///
    /// An empty keyword is passed over. So is a keyword that the table
    /// already holds: the first registration stands, and nothing tells the
    /// caller of the second.
    pub fn add(
        &mut self,
        cat: ElementCategory,
        options: KeywordOptions,
        keywords: &[&Utf32Str],
    ) -> (this: &mut Self)
        ensures
            this@ == old(self)@.register(cat, options, points_of_all(keywords@)),
            old(self)@.wf() ==> this@.wf(),
            *final(self) == *final(this),
    {
        let ghost texts = points_of_all(keywords@);
        let mut i: usize = 0;
        while i < keywords.len()
            invariant
                i <= keywords.len(),
                texts == points_of_all(keywords@),
                self@ == old(self)@.register(cat, options, texts.take(i as int)),
            decreases keywords.len() - i,
        {
            let keyword = keywords[i];
            proof {
                assert(texts.take(i + 1).drop_last() =~= texts.take(i as int));
                assert(texts.take(i + 1).last() == str_points(keyword));
            }
            if self.accepts(cat, keyword.as_slice()) {
                self.push_entry(cat, options, owned_copy(keyword));
            }
            i += 1;
        }
        proof {
            assert(texts.take(i as int) =~= texts);
            if old(self)@.wf() {
                lemma_register_wf(old(self)@, cat, options, texts);
            }
        }
        self
    }

    /// Registers each of `words`, re-encoded as UTF-32, as [`add`](Self::add)
    /// registers keywords.
    pub fn add_words(
        &mut self,
        cat: ElementCategory,
        options: KeywordOptions,
        words: &[&'static str],
    )
        ensures
            final(self)@ == old(self)@.register(cat, options, encode_all(words@)),
            old(self)@.wf() ==> final(self)@.wf(),
    {
        let ghost texts = encode_all(words@);
        let mut i: usize = 0;
        while i < words.len()
            invariant
                i <= words.len(),
                texts == encode_all(words@),
                self@ == old(self)@.register(cat, options, texts.take(i as int)),
            decreases words.len() - i,
        {
            let text = utf32_of(words[i]);
            proof {
                assert(texts.take(i + 1).drop_last() =~= texts.take(i as int));
                assert(texts.take(i + 1).last() == string_points(text));
            }
            if self.accepts(cat, text.as_slice()) {
                self.push_entry(cat, options, text);
            }
            i += 1;
        }
        proof {
            assert(texts.take(i as int) =~= texts);
            if old(self)@.wf() {
                lemma_register_wf(old(self)@, cat, options, texts);
            }
        }
    }

    /// Looks `keyword` up in the table to which `cat` is routed. The keyword
    /// is returned only if it was registered under `cat`: a text registered
    /// under another category of the same table is not found.
    pub fn find(&self, cat: ElementCategory, keyword: &Utf32Str) -> (found: Option<&Keyword>)
        ensures
            match found {
                Some(entry) => self@.lookup(cat, str_points(keyword)) == Some(*entry),
                None => self@.lookup(cat, str_points(keyword)) is None,
            },
    {
        let text = keyword.as_slice();
        let container = self.get_container(cat);
        match position(container, text) {
            Some(i) => {
                proof {
                    lemma_present(container@, text@, i as int);
                }
                let entry = &container[i];
                if entry.keyword.category == cat {
                    Some(&entry.keyword)
                } else {
                    None
                }
            },
            None => {
                proof {
                    lemma_absent(container@, text@);
                }
                None
            },
        }
    }

    /// Looks `keyword` up as [`find`](Self::find) does. The policy `option`
    /// is not consulted: whatever it holds, the result is that of `find`.
    #[allow(unused_variables)]
    pub fn find_opt(
        &self,
        cat: ElementCategory,
        keyword: &Utf32Str,
        option: &KeywordOptions,
    ) -> (found: Option<&Keyword>)
        ensures
            match found {
                Some(entry) => self@.lookup(cat, str_points(keyword)) == Some(*entry),
                None => self@.lookup(cat, str_points(keyword)) is None,
            },
    {
        self.find(cat, keyword)
    }

    /// Scans the part of `filename` that `range` marks for the compound
    /// phrases, before the file name is split at delimiters.
    ///
    /// Each phrase that occurs in that part is recorded in `elements` under
    /// its category, and the span of its first occurrence there is appended
    /// to `preidentified_tokens`. The spans address `filename`, as `range`
    /// does. A range that reaches past the end of `filename` is refused, and
    /// nothing is recorded.
    pub fn peek(
        &self,
        filename: &Utf32Str,
        range: &TokenRange,
        elements: &mut Elements,
        preidentified_tokens: &mut Vec<TokenRange>,
    ) -> (outcome: Result<(), ScanError>)
        ensures
            outcome is Ok <==> range.within(str_points(filename).len()),
            outcome is Err ==> {
                &&& outcome == Err::<(), ScanError>(ScanError::InvalidRange)
                &&& final(elements)@ == old(elements)@
                &&& final(preidentified_tokens)@ == old(preidentified_tokens)@
            },
            outcome is Ok ==> {
                let scanned = range.part_of(str_points(filename));
                &&& final(elements)@ == old(elements)@ + matched_elements(scanned, phrases())
                &&& final(preidentified_tokens)@ == old(preidentified_tokens)@ + matched_spans(
                    scanned,
                    range.offset as int,
                    phrases(),
                )
                &&& (forall|k: int|
                    0 <= k < phrases().len() ==> !occurs(scanned, #[trigger] phrases()[k].1)) ==> {
                    &&& final(elements)@ == old(elements)@
                    &&& final(preidentified_tokens)@ == old(preidentified_tokens)@
                }
            },
    {
        let points = filename.as_slice();
        if !range.fits(points.len()) {
            return Err(ScanError::InvalidRange);
        }
        let scanned = &points[range.as_range()];
        let ghost audio = labelled(ElementCategory::AudioTerm, AUDIO_PHRASES@);
        let ghost video = labelled(ElementCategory::VideoTerm, VIDEO_PHRASES@);
        let ghost resolution = labelled(ElementCategory::VideoResolution, RESOLUTION_PHRASES@);
        let ghost source = labelled(ElementCategory::Source, SOURCE_PHRASES@);
        scan_words(
            scanned,
            range.offset,
            ElementCategory::AudioTerm,
            AUDIO_PHRASES.as_slice(),
            elements,
            preidentified_tokens,
        );
        scan_words(
            scanned,
            range.offset,
            ElementCategory::VideoTerm,
            VIDEO_PHRASES.as_slice(),
            elements,
            preidentified_tokens,
        );
        scan_words(
            scanned,
            range.offset,
            ElementCategory::VideoResolution,
            RESOLUTION_PHRASES.as_slice(),
            elements,
            preidentified_tokens,
        );
        scan_words(
            scanned,
            range.offset,
            ElementCategory::Source,
            SOURCE_PHRASES.as_slice(),
            elements,
            preidentified_tokens,
        );
        proof {
            let base = range.offset as int;
            lemma_matched_concat(scanned@, base, audio, video);
            lemma_matched_concat(scanned@, base, audio + video, resolution);
            lemma_matched_concat(scanned@, base, audio + video + resolution, source);
            assert(elements@ =~= old(elements)@ + matched_elements(scanned@, phrases()));
            assert(preidentified_tokens@ =~= old(preidentified_tokens)@ + matched_spans(
                scanned@,
                base,
                phrases(),
            ));
            if forall|k: int|
                0 <= k < phrases().len() ==> !occurs(scanned@, #[trigger] phrases()[k].1) {
                lemma_no_occurrence_no_match(scanned@, base, phrases());
                assert(elements@ =~= old(elements)@);
                assert(preidentified_tokens@ =~= old(preidentified_tokens)@);
            }
        }
        Ok(())
    }

    /// Registers the words of one keyword list.
    fn add_list(&mut self, i: usize)
        requires
            i < KEYWORD_LISTS,
        ensures
            final(self)@ == old(self)@.register(
                keyword_list(i).category,
                keyword_list(i).options,
                encode_all(keyword_list(i).words),
            ),
    {
        match i {
            0 => self.add_words(
                ElementCategory::AnimeSeasonPrefix,
                KeywordOptions::unidentifiable(),
                SEASON_PREFIXES.as_slice(),
            ),
            1 => self.add_words(
                ElementCategory::AnimeType,
                KeywordOptions::unidentifiable(),
                ANIME_TYPES.as_slice(),
            ),
            2 => self.add_words(
                ElementCategory::AnimeType,
                KeywordOptions::unidentifiable_unsearchable(),
                ANIME_TYPES_UNSEARCHABLE.as_slice(),
            ),
            3 => self.add_words(
                ElementCategory::AnimeType,
                KeywordOptions::unidentifiable_invalid(),
                ANIME_TYPES_INVALID.as_slice(),
            ),
            4 => self.add_words(
                ElementCategory::AudioTerm,
                KeywordOptions::const_default(),
                AUDIO_TERMS.as_slice(),
            ),
            5 => self.add_words(
                ElementCategory::AudioTerm,
                KeywordOptions::unidentifiable(),
                AUDIO_TERMS_UNIDENTIFIABLE.as_slice(),
            ),
            6 => self.add_words(
                ElementCategory::DeviceCompatibility,
                KeywordOptions::const_default(),
                DEVICES.as_slice(),
            ),
            7 => self.add_words(
                ElementCategory::DeviceCompatibility,
                KeywordOptions::unidentifiable(),
                DEVICES_UNIDENTIFIABLE.as_slice(),
            ),
            8 => self.add_words(
                ElementCategory::EpisodePrefix,
                KeywordOptions::const_default(),
                EPISODE_PREFIXES.as_slice(),
            ),
            9 => self.add_words(
                ElementCategory::EpisodePrefix,
                KeywordOptions::invalid(),
                EPISODE_PREFIXES_INVALID.as_slice(),
            ),
            10 => self.add_words(
                ElementCategory::FileExtension,
                KeywordOptions::const_default(),
                FILE_EXTENSIONS.as_slice(),
            ),
            11 => self.add_words(
                ElementCategory::FileExtension,
                KeywordOptions::invalid(),
                FILE_EXTENSIONS_INVALID.as_slice(),
            ),
            12 => self.add_words(
                ElementCategory::Language,
                KeywordOptions::const_default(),
                LANGUAGES.as_slice(),
            ),
            13 => self.add_words(
                ElementCategory::Language,
                KeywordOptions::unidentifiable(),
                LANGUAGES_UNIDENTIFIABLE.as_slice(),
            ),
            14 => self.add_words(
                ElementCategory::Other,
                KeywordOptions::const_default(),
                OTHER_TERMS.as_slice(),
            ),
            15 => self.add_words(
                ElementCategory::ReleaseGroup,
                KeywordOptions::const_default(),
                RELEASE_GROUPS.as_slice(),
            ),
            16 => self.add_words(
                ElementCategory::ReleaseInformation,
                KeywordOptions::const_default(),
                RELEASE_INFORMATION.as_slice(),
            ),
            17 => self.add_words(
                ElementCategory::ReleaseInformation,
                KeywordOptions::unidentifiable(),
                RELEASE_INFORMATION_UNIDENTIFIABLE.as_slice(),
            ),
            18 => self.add_words(
                ElementCategory::ReleaseVersion,
                KeywordOptions::const_default(),
                RELEASE_VERSIONS.as_slice(),
            ),
            19 => self.add_words(
                ElementCategory::Source,
                KeywordOptions::const_default(),
                SOURCES.as_slice(),
            ),
            20 => self.add_words(
                ElementCategory::Subtitles,
                KeywordOptions::const_default(),
                SUBTITLES.as_slice(),
            ),
            21 => self.add_words(
                ElementCategory::VideoTerm,
                KeywordOptions::const_default(),
                VIDEO_TERMS.as_slice(),
            ),
            _ => self.add_words(
                ElementCategory::VolumePrefix,
                KeywordOptions::const_default(),
                VOLUME_PREFIXES.as_slice(),
            ),
        }
    }

    /// The rows of the table to which `cat` is routed.
    fn get_container(&self, cat: ElementCategory) -> (container: &Vec<Entry>)
        ensures
            table_of(container@) == self@.table(cat),
    {
        if cat == ElementCategory::FileExtension {
            &self.ext
        } else {
            &self.key
        }
    }

    /// The rows of the table to which `cat` is routed, to be changed.
    fn get_container_mut(&mut self, cat: ElementCategory) -> (container: &mut Vec<Entry>)
        ensures
            table_of(container@) == old(self)@.table(cat),
            cat == ElementCategory::FileExtension ==> {
                &&& final(self).ext == *final(container)
                &&& final(self).key == old(self).key
            },
            cat != ElementCategory::FileExtension ==> {
                &&& final(self).key == *final(container)
                &&& final(self).ext == old(self).ext
            },
    {
        if cat == ElementCategory::FileExtension {
            &mut self.ext
        } else {
            &mut self.key
        }
    }

    /// Whether registering `text` under `cat` adds a row: the text is not
    /// empty and its table does not hold it yet.
    fn accepts(&self, cat: ElementCategory, text: &[u32]) -> (accepted: bool)
        ensures
            accepted == !(text@.len() == 0 || self@.table(cat).contains_key(text@)),
    {
        if text.len() == 0 {
            return false;
        }
        let container = self.get_container(cat);
        match position(container, text) {
            Some(i) => {
                proof {
                    lemma_present(container@, text@, i as int);
                }
                false
            },
            None => {
                proof {
                    lemma_absent(container@, text@);
                }
                true
            },
        }
    }

    /// Adds the row for a text that its table does not hold yet.
    fn push_entry(&mut self, cat: ElementCategory, options: KeywordOptions, text: Utf32String)
        requires
            string_points(text).len() > 0,
            !old(self)@.table(cat).contains_key(string_points(text)),
        ensures
            final(self)@ == old(self)@.insert(cat, options, string_points(text)),
    {
        let ghost points = string_points(text);
        let entry = Entry { text, keyword: Keyword { category: cat, options } };
        let container = self.get_container_mut(cat);
        let ghost before = container@;
        container.push(entry);
        proof {
            assert(container@.drop_last() =~= before);
            assert(container@.last() == entry);
            assert(table_of(container@) == table_of(before).insert(points, entry.keyword));
        }
    }
}

} // verus!
