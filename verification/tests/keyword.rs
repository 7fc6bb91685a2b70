use media_keywords::{ElementCategory, Keyword, KeywordManager, KeywordOptions};
use widestring::{Utf32Str, Utf32String};

fn text(s: &str) -> Utf32String {
    Utf32String::from_str(s)
}

fn found(manager: &KeywordManager, category: ElementCategory, word: &str) -> Option<Keyword> {
    manager.find(category, text(word).as_utfstr()).copied()
}

#[test]
fn presets_hold_their_flags() {
    assert_eq!(KeywordOptions::const_default(), KeywordOptions::new(true, true, true));
    assert_eq!(KeywordOptions::invalid(), KeywordOptions::new(true, true, false));
    assert_eq!(KeywordOptions::unidentifiable(), KeywordOptions::new(false, true, true));
    assert_eq!(KeywordOptions::unidentifiable_invalid(), KeywordOptions::new(false, true, false));
    assert_eq!(KeywordOptions::unidentifiable_unsearchable(), KeywordOptions::new(false, false, true));
    assert_eq!(KeywordOptions::default(), KeywordOptions::const_default());
}

#[test]
fn options_new_keeps_each_flag_in_its_place() {
    let options = KeywordOptions::new(true, false, false);
    assert!(options.identifiable);
    assert!(!options.searchable);
    assert!(!options.valid);
    let options = KeywordOptions::new(false, false, true);
    assert!(!options.identifiable);
    assert!(!options.searchable);
    assert!(options.valid);
}

#[test]
fn new_dictionary_finds_nothing() {
    let manager = KeywordManager::new();
    assert_eq!(found(&manager, ElementCategory::AudioTerm, "AAC"), None);
    assert_eq!(found(&manager, ElementCategory::FileExtension, "MKV"), None);
    assert_eq!(found(&manager, ElementCategory::AudioTerm, ""), None);
}

#[test]
fn registered_keyword_is_found_under_its_category() {
    let mut manager = KeywordManager::new();
    let words = [text("REMUX"), text("BATCH")];
    let keywords: Vec<&Utf32Str> = words.iter().map(|w| w.as_utfstr()).collect();
    manager.add(ElementCategory::ReleaseInformation, KeywordOptions::unidentifiable(), &keywords);
    for word in ["REMUX", "BATCH"] {
        let keyword = found(&manager, ElementCategory::ReleaseInformation, word).unwrap();
        assert_eq!(keyword.category, ElementCategory::ReleaseInformation);
        assert_eq!(keyword.options, KeywordOptions::new(false, true, true));
    }
    assert_eq!(found(&manager, ElementCategory::ReleaseInformation, "PATCH"), None);
    assert_eq!(found(&manager, ElementCategory::ReleaseInformation, "REMU"), None);
    assert_eq!(found(&manager, ElementCategory::ReleaseInformation, "remux"), None);
}

#[test]
fn keyword_is_not_found_under_another_category() {
    let mut manager = KeywordManager::new();
    let word = text("TS");
    manager.add(ElementCategory::Other, KeywordOptions::const_default(), &[word.as_utfstr()]);
    assert!(found(&manager, ElementCategory::Other, "TS").is_some());
    assert_eq!(found(&manager, ElementCategory::AudioTerm, "TS"), None);
    assert_eq!(found(&manager, ElementCategory::FileExtension, "TS"), None);
    assert_eq!(found(&manager, ElementCategory::Unknown, "TS"), None);
}

#[test]
fn first_registration_wins() {
    let mut manager = KeywordManager::new();
    let word = text("OPUS");
    manager.add(ElementCategory::AudioTerm, KeywordOptions::unidentifiable(), &[word.as_utfstr()]);
    manager.add(ElementCategory::AudioTerm, KeywordOptions::const_default(), &[word.as_utfstr()]);
    manager.add(ElementCategory::Language, KeywordOptions::invalid(), &[word.as_utfstr()]);
    let keyword = found(&manager, ElementCategory::AudioTerm, "OPUS").unwrap();
    assert_eq!(keyword.category, ElementCategory::AudioTerm);
    assert_eq!(keyword.options, KeywordOptions::unidentifiable());
    assert_eq!(found(&manager, ElementCategory::Language, "OPUS"), None);
}

#[test]
fn first_registration_wins_within_one_call() {
    let mut manager = KeywordManager::new();
    let word = text("V2");
    manager.add(
        ElementCategory::ReleaseVersion,
        KeywordOptions::invalid(),
        &[word.as_utfstr(), word.as_utfstr()],
    );
    let keyword = found(&manager, ElementCategory::ReleaseVersion, "V2").unwrap();
    assert_eq!(keyword.options, KeywordOptions::invalid());
}

#[test]
fn empty_keyword_is_never_registered() {
    let mut manager = KeywordManager::new();
    let empty = text("");
    let word = text("VOL");
    manager.add(
        ElementCategory::VolumePrefix,
        KeywordOptions::const_default(),
        &[empty.as_utfstr(), word.as_utfstr(), empty.as_utfstr()],
    );
    manager.add(ElementCategory::FileExtension, KeywordOptions::const_default(), &[empty.as_utfstr()]);
    assert_eq!(found(&manager, ElementCategory::VolumePrefix, ""), None);
    assert_eq!(found(&manager, ElementCategory::FileExtension, ""), None);
    assert!(found(&manager, ElementCategory::VolumePrefix, "VOL").is_some());
    manager.add_words(ElementCategory::Language, KeywordOptions::const_default(), &["", "ENG"]);
    assert_eq!(found(&manager, ElementCategory::Language, ""), None);
    assert!(found(&manager, ElementCategory::Language, "ENG").is_some());
}

#[test]
fn add_can_be_chained() {
    let mut manager = KeywordManager::new();
    let mp3 = text("MP3");
    manager
        .add(ElementCategory::AudioTerm, KeywordOptions::const_default(), &[mp3.as_utfstr()])
        .add(ElementCategory::FileExtension, KeywordOptions::invalid(), &[mp3.as_utfstr()]);
    let audio = found(&manager, ElementCategory::AudioTerm, "MP3").unwrap();
    assert_eq!(audio, Keyword { category: ElementCategory::AudioTerm, options: KeywordOptions::const_default() });
    let extension = found(&manager, ElementCategory::FileExtension, "MP3").unwrap();
    assert_eq!(extension, Keyword { category: ElementCategory::FileExtension, options: KeywordOptions::invalid() });
}

#[test]
fn extension_table_is_apart_from_the_general_table() {
    let mut manager = KeywordManager::new();
    let wmv = text("WMV");
    manager.add(ElementCategory::FileExtension, KeywordOptions::const_default(), &[wmv.as_utfstr()]);
    assert_eq!(found(&manager, ElementCategory::VideoTerm, "WMV"), None);
    manager.add(ElementCategory::VideoTerm, KeywordOptions::unidentifiable(), &[wmv.as_utfstr()]);
    assert_eq!(found(&manager, ElementCategory::VideoTerm, "WMV").unwrap().options, KeywordOptions::unidentifiable());
    assert_eq!(found(&manager, ElementCategory::FileExtension, "WMV").unwrap().options, KeywordOptions::const_default());
}

#[test]
fn add_words_registers_the_code_points_of_each_word() {
    let mut manager = KeywordManager::new();
    manager.add_words(ElementCategory::EpisodePrefix, KeywordOptions::const_default(), &["EPIS\u{00F3}DIO", "EP."]);
    let accented = Utf32String::from_vec(vec![0x45, 0x50, 0x49, 0x53, 0xF3, 0x44, 0x49, 0x4F]).unwrap();
    let keyword = manager.find(ElementCategory::EpisodePrefix, accented.as_utfstr()).unwrap();
    assert_eq!(keyword.category, ElementCategory::EpisodePrefix);
    let plain = Utf32String::from_vec(vec![0x45, 0x50, 0x49, 0x53, 0x4F, 0x44, 0x49, 0x4F]).unwrap();
    assert!(manager.find(ElementCategory::EpisodePrefix, plain.as_utfstr()).is_none());
    let dotted = Utf32String::from_vec(vec![0x45, 0x50, 0x2E]).unwrap();
    assert!(manager.find(ElementCategory::EpisodePrefix, dotted.as_utfstr()).is_some());
}

#[test]
fn find_opt_does_not_consult_the_policy() {
    let mut manager = KeywordManager::new();
    let word = text("E");
    manager.add(ElementCategory::EpisodePrefix, KeywordOptions::invalid(), &[word.as_utfstr()]);
    let expected = Keyword { category: ElementCategory::EpisodePrefix, options: KeywordOptions::invalid() };
    for policy in [
        KeywordOptions::const_default(),
        KeywordOptions::invalid(),
        KeywordOptions::unidentifiable(),
        KeywordOptions::unidentifiable_invalid(),
        KeywordOptions::unidentifiable_unsearchable(),
    ] {
        assert_eq!(manager.find_opt(ElementCategory::EpisodePrefix, word.as_utfstr(), &policy), Some(&expected));
        assert_eq!(manager.find_opt(ElementCategory::AnimeType, word.as_utfstr(), &policy), None);
        assert_eq!(manager.find_opt(ElementCategory::EpisodePrefix, text("EP").as_utfstr(), &policy), None);
    }
}

#[test]
fn instance_keeps_colliding_texts_apart() {
    let manager = KeywordManager::instance();
    let extension = found(&manager, ElementCategory::FileExtension, "MP3").unwrap();
    assert_eq!(extension.category, ElementCategory::FileExtension);
    assert!(!extension.options.valid);
    assert_eq!(extension.options, KeywordOptions::new(true, true, false));
    let audio = found(&manager, ElementCategory::AudioTerm, "MP3").unwrap();
    assert_eq!(audio.category, ElementCategory::AudioTerm);
    assert!(audio.options.valid);
    assert_eq!(audio.options, KeywordOptions::new(true, true, true));
    for word in ["AAC", "FLAC", "OGG"] {
        assert!(!found(&manager, ElementCategory::FileExtension, word).unwrap().options.valid);
        assert!(found(&manager, ElementCategory::AudioTerm, word).unwrap().options.valid);
    }
    for word in ["AVI", "DIVX", "RMVB", "WMV"] {
        assert!(found(&manager, ElementCategory::FileExtension, word).unwrap().options.valid);
        assert_eq!(found(&manager, ElementCategory::VideoTerm, word).unwrap().category, ElementCategory::VideoTerm);
    }
    assert_eq!(found(&manager, ElementCategory::Subtitles, "ASS").unwrap().options, KeywordOptions::const_default());
    assert_eq!(found(&manager, ElementCategory::FileExtension, "ASS").unwrap().options, KeywordOptions::invalid());
    assert_eq!(found(&manager, ElementCategory::Other, "TS").unwrap().options, KeywordOptions::const_default());
    assert_eq!(found(&manager, ElementCategory::FileExtension, "TS").unwrap().options, KeywordOptions::const_default());
}

#[test]
fn instance_holds_each_preset() {
    let manager = KeywordManager::instance();
    assert_eq!(found(&manager, ElementCategory::AnimeSeasonPrefix, "SEASON").unwrap().options, KeywordOptions::unidentifiable());
    assert_eq!(found(&manager, ElementCategory::AnimeType, "SP").unwrap().options, KeywordOptions::unidentifiable_unsearchable());
    assert_eq!(found(&manager, ElementCategory::AnimeType, "OP").unwrap().options, KeywordOptions::unidentifiable_invalid());
    assert_eq!(found(&manager, ElementCategory::EpisodePrefix, "E").unwrap().options, KeywordOptions::invalid());
    assert_eq!(found(&manager, ElementCategory::VolumePrefix, "VOLUME").unwrap().options, KeywordOptions::const_default());
    assert_eq!(found(&manager, ElementCategory::AudioTerm, "OPUS").unwrap().options, KeywordOptions::unidentifiable());
    assert_eq!(found(&manager, ElementCategory::AudioTerm, "DUAL AUDIO").unwrap().options, KeywordOptions::const_default());
    assert_eq!(found(&manager, ElementCategory::VideoTerm, "H.264").unwrap().options, KeywordOptions::const_default());
    assert_eq!(found(&manager, ElementCategory::Source, "BLU-RAY").unwrap().category, ElementCategory::Source);
    assert_eq!(found(&manager, ElementCategory::ReleaseGroup, "THORA").unwrap().category, ElementCategory::ReleaseGroup);
}

#[test]
fn instance_holds_keywords_beyond_ascii() {
    let manager = KeywordManager::instance();
    assert!(found(&manager, ElementCategory::EpisodePrefix, "EPIS\u{00F3}DIO").is_some());
    assert!(found(&manager, ElementCategory::EpisodePrefix, "EPISODIO").is_some());
    let keyword = found(&manager, ElementCategory::EpisodePrefix, "\u{00E7}\u{00AC}\u{00AC}").unwrap();
    assert_eq!(keyword.options, KeywordOptions::invalid());
}

#[test]
fn instance_routes_by_the_category_asked_for() {
    let manager = KeywordManager::instance();
    assert_eq!(found(&manager, ElementCategory::AudioTerm, "TS"), None);
    assert_eq!(found(&manager, ElementCategory::AudioTerm, "MKV"), None);
    assert_eq!(found(&manager, ElementCategory::FileExtension, "DTS"), None);
    assert_eq!(found(&manager, ElementCategory::Unknown, "MP3"), None);
    assert_eq!(found(&manager, ElementCategory::AudioTerm, ""), None);
    assert_eq!(found(&manager, ElementCategory::FileExtension, ""), None);
    assert_eq!(found(&manager, ElementCategory::AudioTerm, "mp3"), None);
    assert_eq!(found(&manager, ElementCategory::AnimeTitle, "MOVIE"), None);
}

#[test]
fn instance_builds_the_same_dictionary_each_time() {
    let one = KeywordManager::instance();
    let two = KeywordManager::instance();
    for (category, word) in [
        (ElementCategory::Language, "VOSTFR"),
        (ElementCategory::Language, "ITA"),
        (ElementCategory::DeviceCompatibility, "ANDROID"),
        (ElementCategory::FileExtension, "7Z"),
        (ElementCategory::ReleaseVersion, "V0"),
    ] {
        assert!(found(&one, category, word).is_some());
        assert_eq!(found(&one, category, word), found(&two, category, word));
    }
}
