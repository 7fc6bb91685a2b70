//! The curated keywords and compound phrases.
//!
//! Every list is plain data. The keyword lists are numbered, and
//! [`keyword_list`] gives each its category and policy; the dictionary built
//! from them is [`catalogue`]. The phrases looked for in a whole file name
//! are [`phrases`].

use crate::dictionary::lemma_register_other_category;
use crate::dictionary::lemma_register_wf;
use crate::dictionary::Dictionary;
use crate::element::ElementCategory;
use crate::keyword::KeywordOptions;
use crate::text::encode;
use vstd::prelude::*;

verus! {

/// Words that announce a season number.
pub const SEASON_PREFIXES: [&'static str; 2] = ["SAISON", "SEASON"];

/// Kinds of release. Not reported: many of them are words of titles too.
pub const ANIME_TYPES: [&'static str; 9] = [
    "GEKIJOUBAN", "MOVIE", "OAD", "OAV", "ONA", "OVA", "SPECIAL", "SPECIALS", "TV",
];

/// A kind of release that only counts as a whole token: `SP` stands inside
/// many words.
pub const ANIME_TYPES_UNSEARCHABLE: [&'static str; 1] = ["SP"];

/// Kinds of extra that are too short or too common to stand alone.
pub const ANIME_TYPES_INVALID: [&'static str; 8] = [
    "ED", "ENDING", "NCED", "NCOP", "OP", "OPENING", "PREVIEW", "PV",
];

/// Audio channels, audio codecs and audio languages.
pub const AUDIO_TERMS: [&'static str; 31] = [
    "2.0CH", "2CH", "5.1", "5.1CH", "7.1", "7.1CH", "DTS", "DTS-ES", "DTS5.1",
    "DOLBY TRUEHD", "TRUEHD", "TRUEHD5.1", "AAC", "AACX2", "AACX3", "AACX4", "AC3", "EAC3",
    "E-AC-3", "FLAC", "FLACX2", "FLACX3", "FLACX4", "LOSSLESS", "MP3", "OGG", "VORBIS",
    "ATMOS", "DOLBY ATMOS", "DUALAUDIO", "DUAL AUDIO",
];

/// An audio codec whose name is also a word of titles.
pub const AUDIO_TERMS_UNIDENTIFIABLE: [&'static str; 1] = ["OPUS"];

/// Devices that a release was encoded for.
pub const DEVICES: [&'static str; 6] = ["IPAD3", "IPHONE5", "IPOD", "PS3", "XBOX", "XBOX360"];

/// A device whose name is also a word of titles.
pub const DEVICES_UNIDENTIFIABLE: [&'static str; 1] = ["ANDROID"];

/// Words that announce an episode number.
pub const EPISODE_PREFIXES: [&'static str; 11] = [
    "EP", "EP.", "EPS", "EPS.", "EPISODE", "EPISODE.", "EPISODES", "CAPITULO", "EPISODIO",
    "EPIS\u{00F3}DIO", "FOLGE",
];

/// Episode prefixes that are too short to be trusted as tokens of their own.
pub const EPISODE_PREFIXES_INVALID: [&'static str; 2] = ["E", "\u{00E7}\u{00AC}\u{00AC}"];

/// Extensions of video files.
pub const FILE_EXTENSIONS: [&'static str; 15] = [
    "3GP", "AVI", "DIVX", "FLV", "M2TS", "MKV", "MOV", "MP4", "MPG", "OGM", "RM", "RMVB",
    "TS", "WEBM", "WMV",
];

/// Extensions of audio files, archives and subtitles: known, but not what a
/// release is expected to end in.
pub const FILE_EXTENSIONS_INVALID: [&'static str; 14] = [
    "AAC", "AIFF", "FLAC", "M4A", "MP3", "MKA", "OGG", "WAV", "WMA", "7Z", "RAR", "ZIP",
    "ASS", "SRT",
];

/// Languages.
pub const LANGUAGES: [&'static str; 7] = [
    "ENG", "ENGLISH", "ESPANOL", "JAP", "PT-BR", "SPANISH", "VOSTFR",
];

/// Languages whose short names are also words of titles.
pub const LANGUAGES_UNIDENTIFIABLE: [&'static str; 2] = ["ESP", "ITA"];

/// Remarks on the release that fit no other category.
pub const OTHER_TERMS: [&'static str; 8] = [
    "REMASTER", "REMASTERED", "UNCENSORED", "UNCUT", "TS", "VFR", "WIDESCREEN", "WS",
];

/// Release groups known by name.
pub const RELEASE_GROUPS: [&'static str; 1] = ["THORA"];

/// Remarks on what the release contains.
pub const RELEASE_INFORMATION: [&'static str; 4] = ["BATCH", "COMPLETE", "PATCH", "REMUX"];

/// Remarks on what the release contains that are also words of titles.
pub const RELEASE_INFORMATION_UNIDENTIFIABLE: [&'static str; 2] = ["END", "FINAL"];

/// Version marks.
pub const RELEASE_VERSIONS: [&'static str; 5] = ["V0", "V1", "V2", "V3", "V4"];

/// Media that a release was taken from.
pub const SOURCES: [&'static str; 20] = [
    "BD", "BDRIP", "BLURAY", "BLU-RAY", "DVD", "DVD5", "DVD9", "DVD-R2J", "DVDRIP",
    "DVD-RIP", "R2DVD", "R2J", "R2JDVD", "R2JDVDRIP", "HDTV", "HDTVRIP", "TVRIP", "TV-RIP",
    "WEBCAST", "WEBRIP",
];

/// Remarks on subtitles and dubbing.
pub const SUBTITLES: [&'static str; 14] = [
    "ASS", "BIG5", "DUB", "DUBBED", "HARDSUB", "HARDSUBS", "RAW", "SOFTSUB", "SOFTSUBS",
    "SUB", "SUBBED", "SUBTITLED", "MULTISUB", "MULTI SUB",
];

/// Frame rates, video codecs, video formats, quality marks and resolutions.
pub const VIDEO_TERMS: [&'static str; 45] = [
    "23.976FPS", "24FPS", "29.97FPS", "30FPS", "60FPS", "120FPS", "8BIT", "8-BIT", "10BIT",
    "10BITS", "10-BIT", "10-BITS", "HI10", "HI10P", "HI444", "HI444P", "HI444PP", "HDR",
    "DV", "DOLBY VISION", "H264", "H265", "H.264", "H.265", "X264", "X265", "X.264", "AVC",
    "HEVC", "HEVC2", "DIVX", "DIVX5", "DIVX6", "XVID", "AV1", "AVI", "RMVB", "WMV", "WMV3",
    "WMV9", "HQ", "LQ", "4K", "HD", "SD",
];

/// Words that announce a volume number.
pub const VOLUME_PREFIXES: [&'static str; 3] = ["VOL", "VOL.", "VOLUME"];

/// A phrase of two words that delimiters would split.
pub const AUDIO_PHRASES: [&'static str; 1] = ["Dual Audio"];

/// Codec names in the spellings that occur, each case written out: code
/// points are compared as they are.
pub const VIDEO_PHRASES: [&'static str; 4] = ["H264", "H.264", "h264", "h.264"];

/// Resolutions by their number of lines.
pub const RESOLUTION_PHRASES: [&'static str; 4] = ["480p", "720p", "1080p", "2160p"];

/// A source whose name holds a hyphen.
pub const SOURCE_PHRASES: [&'static str; 1] = ["Blu-Ray"];

/// The number of keyword lists.
pub const KEYWORD_LISTS: usize = 23;

/// A list of keywords, with the category and the policy under which its
/// words are registered.
pub struct KeywordList {
    pub category: ElementCategory,
    pub options: KeywordOptions,
    pub words: Seq<&'static str>,
}

/// The keyword lists in the order in which they are registered. Where a text
/// stands in two lists of one table, the earlier list decides.
pub open spec fn keyword_list(i: usize) -> KeywordList {
    match i {
        0 => KeywordList {
            category: ElementCategory::AnimeSeasonPrefix,
            options: KeywordOptions::unidentifiable(),
            words: SEASON_PREFIXES@,
        },
        1 => KeywordList {
            category: ElementCategory::AnimeType,
            options: KeywordOptions::unidentifiable(),
            words: ANIME_TYPES@,
        },
        2 => KeywordList {
            category: ElementCategory::AnimeType,
            options: KeywordOptions::unidentifiable_unsearchable(),
            words: ANIME_TYPES_UNSEARCHABLE@,
        },
        3 => KeywordList {
            category: ElementCategory::AnimeType,
            options: KeywordOptions::unidentifiable_invalid(),
            words: ANIME_TYPES_INVALID@,
        },
        4 => KeywordList {
            category: ElementCategory::AudioTerm,
            options: KeywordOptions::const_default(),
            words: AUDIO_TERMS@,
        },
        5 => KeywordList {
            category: ElementCategory::AudioTerm,
            options: KeywordOptions::unidentifiable(),
            words: AUDIO_TERMS_UNIDENTIFIABLE@,
        },
        6 => KeywordList {
            category: ElementCategory::DeviceCompatibility,
            options: KeywordOptions::const_default(),
            words: DEVICES@,
        },
        7 => KeywordList {
            category: ElementCategory::DeviceCompatibility,
            options: KeywordOptions::unidentifiable(),
            words: DEVICES_UNIDENTIFIABLE@,
        },
        8 => KeywordList {
            category: ElementCategory::EpisodePrefix,
            options: KeywordOptions::const_default(),
            words: EPISODE_PREFIXES@,
        },
        9 => KeywordList {
            category: ElementCategory::EpisodePrefix,
            options: KeywordOptions::invalid(),
            words: EPISODE_PREFIXES_INVALID@,
        },
        10 => KeywordList {
            category: ElementCategory::FileExtension,
            options: KeywordOptions::const_default(),
            words: FILE_EXTENSIONS@,
        },
        11 => KeywordList {
            category: ElementCategory::FileExtension,
            options: KeywordOptions::invalid(),
            words: FILE_EXTENSIONS_INVALID@,
        },
        12 => KeywordList {
            category: ElementCategory::Language,
            options: KeywordOptions::const_default(),
            words: LANGUAGES@,
        },
        13 => KeywordList {
            category: ElementCategory::Language,
            options: KeywordOptions::unidentifiable(),
            words: LANGUAGES_UNIDENTIFIABLE@,
        },
        14 => KeywordList {
            category: ElementCategory::Other,
            options: KeywordOptions::const_default(),
            words: OTHER_TERMS@,
        },
        15 => KeywordList {
            category: ElementCategory::ReleaseGroup,
            options: KeywordOptions::const_default(),
            words: RELEASE_GROUPS@,
        },
        16 => KeywordList {
            category: ElementCategory::ReleaseInformation,
            options: KeywordOptions::const_default(),
            words: RELEASE_INFORMATION@,
        },
        17 => KeywordList {
            category: ElementCategory::ReleaseInformation,
            options: KeywordOptions::unidentifiable(),
            words: RELEASE_INFORMATION_UNIDENTIFIABLE@,
        },
        18 => KeywordList {
            category: ElementCategory::ReleaseVersion,
            options: KeywordOptions::const_default(),
            words: RELEASE_VERSIONS@,
        },
        19 => KeywordList {
            category: ElementCategory::Source,
            options: KeywordOptions::const_default(),
            words: SOURCES@,
        },
        20 => KeywordList {
            category: ElementCategory::Subtitles,
            options: KeywordOptions::const_default(),
            words: SUBTITLES@,
        },
        21 => KeywordList {
            category: ElementCategory::VideoTerm,
            options: KeywordOptions::const_default(),
            words: VIDEO_TERMS@,
        },
        _ => KeywordList {
            category: ElementCategory::VolumePrefix,
            options: KeywordOptions::const_default(),
            words: VOLUME_PREFIXES@,
        },
    }
}

/// The code points of each word, in the order of the words.
pub open spec fn encode_all(words: Seq<&'static str>) -> Seq<Seq<u32>> {
    Seq::new(words.len(), |i: int| encode(words[i]@))
}

/// Each word as code points, paired with `category`.
pub open spec fn labelled(category: ElementCategory, words: Seq<&'static str>) -> Seq<
    (ElementCategory, Seq<u32>),
> {
    Seq::new(words.len(), |i: int| (category, encode(words[i]@)))
}

/// The compound phrases, each with its category, in the order in which a
/// file name is scanned for them.
pub open spec fn phrases() -> Seq<(ElementCategory, Seq<u32>)> {
    labelled(ElementCategory::AudioTerm, AUDIO_PHRASES@) + labelled(
        ElementCategory::VideoTerm,
        VIDEO_PHRASES@,
    ) + labelled(ElementCategory::VideoResolution, RESOLUTION_PHRASES@) + labelled(
        ElementCategory::Source,
        SOURCE_PHRASES@,
    )
}

/// The dictionary that holds the first `n` keyword lists: the empty
/// dictionary with each of them registered in turn.
pub open spec fn catalogue_upto(n: usize) -> Dictionary
    decreases n,
{
    if n == 0 {
        Dictionary::empty()
    } else {
        let list = keyword_list((n - 1) as usize);
        catalogue_upto((n - 1) as usize).register(
            list.category,
            list.options,
            encode_all(list.words),
        )
    }
}

/// The dictionary of the curated keywords.
pub open spec fn catalogue() -> Dictionary {
    catalogue_upto(KEYWORD_LISTS)
}

/// The dictionary of the curated keywords is well formed, at every stage of
/// its making.
pub proof fn lemma_catalogue_wf(n: usize)
    ensures
        catalogue_upto(n).wf(),
    decreases n,
{
    if n > 0 {
        let list = keyword_list((n - 1) as usize);
        lemma_catalogue_wf((n - 1) as usize);
        lemma_register_wf(
            catalogue_upto((n - 1) as usize),
            list.category,
            list.options,
            encode_all(list.words),
        );
    }
}

/// No curated keyword is registered under `Unknown`: that category marks
/// what has not been classified.
pub proof fn lemma_catalogue_never_unknown(n: usize)
    ensures
        forall|text: Seq<u32>| !catalogue_upto(n).registered_under(ElementCategory::Unknown, text),
    decreases n,
{
    if n > 0 {
        let list = keyword_list((n - 1) as usize);
        lemma_catalogue_never_unknown((n - 1) as usize);
        lemma_register_other_category(
            catalogue_upto((n - 1) as usize),
            list.category,
            list.options,
            encode_all(list.words),
            ElementCategory::Unknown,
        );
    }
}

} // verus!
