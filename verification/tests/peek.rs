use media_keywords::{ElementCategory, Elements, KeywordManager, ScanError, TokenRange};
use widestring::Utf32String;

fn text(s: &str) -> Utf32String {
    Utf32String::from_str(s)
}

fn whole(filename: &Utf32String) -> TokenRange {
    TokenRange::new(0, filename.len())
}

#[test]
fn peek_records_resolution_and_dual_audio() {
    let manager = KeywordManager::new();
    let filename = text("[Group] Show - 01 [720p][Dual Audio].mkv");
    let mut elements = Elements::new();
    let mut spans = Vec::new();
    let outcome = manager.peek(filename.as_utfstr(), &whole(&filename), &mut elements, &mut spans);
    assert_eq!(outcome, Ok(()));
    assert_eq!(elements.len(), 2);
    assert_eq!(elements.get(ElementCategory::VideoResolution).unwrap().to_string(), "720p");
    assert_eq!(elements.get(ElementCategory::AudioTerm).unwrap().to_string(), "Dual Audio");
    assert!(elements.contains(ElementCategory::VideoResolution, text("720p").as_utfstr()));
    assert!(elements.contains(ElementCategory::AudioTerm, text("Dual Audio").as_utfstr()));
    assert_eq!(spans, vec![TokenRange::new(25, 10), TokenRange::new(19, 4)]);
    assert_eq!(&filename.as_slice()[spans[0].as_range()], text("Dual Audio").as_slice());
    assert_eq!(&filename.as_slice()[spans[1].as_range()], text("720p").as_slice());
}

#[test]
fn peek_without_phrases_changes_nothing() {
    let manager = KeywordManager::instance();
    let filename = text("[Group] Show - 01.mkv");
    let mut elements = Elements::new();
    elements.insert(ElementCategory::ReleaseGroup, text("Group"));
    let mut spans = vec![TokenRange::new(1, 5)];
    let outcome = manager.peek(filename.as_utfstr(), &whole(&filename), &mut elements, &mut spans);
    assert_eq!(outcome, Ok(()));
    assert_eq!(elements.len(), 1);
    assert_eq!(elements.get(ElementCategory::ReleaseGroup).unwrap().to_string(), "Group");
    assert_eq!(spans, vec![TokenRange::new(1, 5)]);
}

#[test]
fn peek_appends_after_what_was_recorded() {
    let manager = KeywordManager::new();
    let filename = text("Show Blu-Ray");
    let mut elements = Elements::new();
    elements.insert(ElementCategory::Source, text("DVD"));
    let mut spans = vec![TokenRange::new(40, 2)];
    assert_eq!(manager.peek(filename.as_utfstr(), &whole(&filename), &mut elements, &mut spans), Ok(()));
    let sources = elements.get_all(ElementCategory::Source);
    assert_eq!(sources.len(), 2);
    assert_eq!(sources[0].to_string(), "DVD");
    assert_eq!(sources[1].to_string(), "Blu-Ray");
    assert_eq!(spans, vec![TokenRange::new(40, 2), TokenRange::new(5, 7)]);
}

#[test]
fn peek_records_every_phrase_that_occurs() {
    let manager = KeywordManager::new();
    let filename = text("Show 480p 720p h.264 H264 Blu-Ray Dual Audio");
    let mut elements = Elements::new();
    let mut spans = Vec::new();
    assert_eq!(manager.peek(filename.as_utfstr(), &whole(&filename), &mut elements, &mut spans), Ok(()));
    assert_eq!(elements.len(), 6);
    let audio = elements.get_all(ElementCategory::AudioTerm);
    assert_eq!(audio.len(), 1);
    assert_eq!(audio[0].to_string(), "Dual Audio");
    let video = elements.get_all(ElementCategory::VideoTerm);
    assert_eq!(video.len(), 2);
    assert_eq!(video[0].to_string(), "H264");
    assert_eq!(video[1].to_string(), "h.264");
    let resolution = elements.get_all(ElementCategory::VideoResolution);
    assert_eq!(resolution.len(), 2);
    assert_eq!(resolution[0].to_string(), "480p");
    assert_eq!(resolution[1].to_string(), "720p");
    let source = elements.get_all(ElementCategory::Source);
    assert_eq!(source.len(), 1);
    assert_eq!(source[0].to_string(), "Blu-Ray");
    assert_eq!(
        spans,
        vec![
            TokenRange::new(34, 10),
            TokenRange::new(21, 4),
            TokenRange::new(15, 5),
            TokenRange::new(5, 4),
            TokenRange::new(10, 4),
            TokenRange::new(26, 7),
        ]
    );
}

#[test]
fn peek_records_a_repeated_phrase_once_at_its_first_place() {
    let manager = KeywordManager::new();
    let filename = text("1080p and 1080p");
    let mut elements = Elements::new();
    let mut spans = Vec::new();
    assert_eq!(manager.peek(filename.as_utfstr(), &whole(&filename), &mut elements, &mut spans), Ok(()));
    assert_eq!(elements.len(), 1);
    assert_eq!(spans, vec![TokenRange::new(0, 5)]);
}

#[test]
fn peek_does_not_fold_case() {
    let manager = KeywordManager::new();
    let filename = text("show 720P dual audio BLU-RAY X264");
    let mut elements = Elements::new();
    let mut spans = Vec::new();
    assert_eq!(manager.peek(filename.as_utfstr(), &whole(&filename), &mut elements, &mut spans), Ok(()));
    assert!(elements.is_empty());
    assert!(spans.is_empty());
}

#[test]
fn peek_scans_only_the_range() {
    let manager = KeywordManager::new();
    let filename = text("720p Show 2160p [H.264]");
    let mut elements = Elements::new();
    let mut spans = Vec::new();
    let range = TokenRange::new(5, 10);
    assert_eq!(manager.peek(filename.as_utfstr(), &range, &mut elements, &mut spans), Ok(()));
    assert_eq!(elements.len(), 1);
    assert_eq!(elements.get(ElementCategory::VideoResolution).unwrap().to_string(), "2160p");
    assert_eq!(spans, vec![TokenRange::new(10, 5)]);
    assert_eq!(&filename.as_slice()[spans[0].as_range()], text("2160p").as_slice());
}

#[test]
fn peek_spans_address_the_file_name() {
    let manager = KeywordManager::new();
    let filename = text("[Group] Show - 01 [720p][Dual Audio].mkv");
    let mut elements = Elements::new();
    let mut spans = Vec::new();
    let range = TokenRange::new(18, 18);
    assert_eq!(manager.peek(filename.as_utfstr(), &range, &mut elements, &mut spans), Ok(()));
    assert_eq!(spans, vec![TokenRange::new(25, 10), TokenRange::new(19, 4)]);
    let mut later = Vec::new();
    let range = TokenRange::new(24, 12);
    assert_eq!(manager.peek(filename.as_utfstr(), &range, &mut elements, &mut later), Ok(()));
    assert_eq!(later, vec![TokenRange::new(25, 10)]);
    assert_eq!(elements.get_all(ElementCategory::AudioTerm).len(), 2);
    assert_eq!(elements.get_all(ElementCategory::VideoResolution).len(), 1);
}

#[test]
fn peek_misses_a_phrase_cut_by_the_range() {
    let manager = KeywordManager::new();
    let filename = text("Show 1080p");
    let mut elements = Elements::new();
    let mut spans = Vec::new();
    assert_eq!(manager.peek(filename.as_utfstr(), &TokenRange::new(0, 9), &mut elements, &mut spans), Ok(()));
    assert!(elements.is_empty());
    assert!(spans.is_empty());
    assert_eq!(manager.peek(filename.as_utfstr(), &TokenRange::new(0, 10), &mut elements, &mut spans), Ok(()));
    assert_eq!(spans, vec![TokenRange::new(5, 5)]);
}

#[test]
fn peek_accepts_an_empty_range_at_the_end() {
    let manager = KeywordManager::new();
    let filename = text("720p");
    let mut elements = Elements::new();
    let mut spans = Vec::new();
    assert_eq!(manager.peek(filename.as_utfstr(), &TokenRange::new(4, 0), &mut elements, &mut spans), Ok(()));
    assert!(elements.is_empty());
    assert!(spans.is_empty());
    let empty = text("");
    assert_eq!(manager.peek(empty.as_utfstr(), &TokenRange::new(0, 0), &mut elements, &mut spans), Ok(()));
    assert!(elements.is_empty());
}

#[test]
fn peek_refuses_a_range_past_the_end() {
    let manager = KeywordManager::new();
    let filename = text("Show 720p");
    let mut elements = Elements::new();
    elements.insert(ElementCategory::AnimeTitle, text("Show"));
    let mut spans = vec![TokenRange::new(0, 4)];
    for range in [
        TokenRange::new(0, 10),
        TokenRange::new(5, 5),
        TokenRange::new(10, 0),
        TokenRange::new(usize::MAX, 1),
        TokenRange::new(1, usize::MAX),
        TokenRange::new(usize::MAX, usize::MAX),
    ] {
        let outcome = manager.peek(filename.as_utfstr(), &range, &mut elements, &mut spans);
        assert_eq!(outcome, Err(ScanError::InvalidRange));
        assert_eq!(elements.len(), 1);
        assert_eq!(spans, vec![TokenRange::new(0, 4)]);
    }
}
