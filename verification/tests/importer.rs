use glossa::entry::Entry;
use glossa::importer::{
    final_progress, is_blank, is_importable, parse_content_length, DownloadMeter, Importer, Progress,
};

fn entry(word: &str, lang: &str) -> Entry {
    Entry {
        word: word.to_string(),
        lang_code: lang.to_string(),
        pos: "noun".to_string(),
        etymology_text: None,
        senses: vec![],
        sounds: vec![],
        tags: vec![],
        forms: vec![],
    }
}

#[test]
fn content_length_parses_like_u64_from_str() {
    for s in ["0", "123", "+5", "007", "18446744073709551615", "", "+", "-1", "12a", " 1", "18446744073709551616", "99999999999999999999"] {
        assert_eq!(parse_content_length(s), s.parse::<u64>().ok(), "{s}");
    }
    assert_eq!(parse_content_length("4096"), Some(4096));
}

#[test]
fn download_progress_every_four_megabytes() {
    let mut m = DownloadMeter::new(Some(10_000_000));
    assert!(m.on_chunk(65_536).is_none());
    assert!(m.on_chunk(3_900_000).is_none());
    match m.on_chunk(65_536) {
        Some(Progress::Downloading { received, total }) => {
            assert_eq!(received, 4_031_072);
            assert_eq!(total, Some(10_000_000));
        }
        other => panic!("unexpected {other:?}"),
    }
    assert!(m.on_chunk(3_999_999).is_none());
    assert!(m.on_chunk(1).is_some());
    match m.finish() {
        Progress::Downloading { received, total } => {
            assert_eq!(received, 8_031_072);
            assert_eq!(total, Some(10_000_000));
        }
        other => panic!("unexpected {other:?}"),
    }
    assert_eq!(m.received(), 8_031_072);
}

#[test]
fn install_ends_with_done_or_failed() {
    match final_progress(Ok(42)) {
        Progress::Done { entries } => assert_eq!(entries, 42),
        other => panic!("unexpected {other:?}"),
    }
    match final_progress(Err("connection reset".to_string())) {
        Progress::Failed(e) => assert_eq!(e, "connection reset"),
        other => panic!("unexpected {other:?}"),
    }
}

#[test]
fn blank_lines_and_entries_without_word_or_language_are_skipped() {
    assert!(is_blank(""));
    assert!(is_blank("  \t "));
    assert!(!is_blank(" {} "));
    assert!(is_importable(&entry("dog", "en")));
    assert!(!is_importable(&entry("", "en")));
    assert!(!is_importable(&entry("dog", "")));
}

#[test]
fn rows_are_flushed_in_batches_of_one_hundred() {
    let mut imp = Importer::new();
    let mut flushed = Vec::new();
    for i in 0..250u32 {
        let lang = if i % 3 == 0 { "de" } else { "en" };
        let step = imp.add(entry(&format!("Word{i}"), lang), format!("{{\"n\":{i}}}"));
        if let Some(rows) = step.flush {
            assert_eq!(rows.len(), 100);
            flushed.push(rows);
        }
        assert!(step.progress.is_none());
    }
    assert_eq!(flushed.len(), 2);
    assert_eq!(flushed[0][0].word, "Word0");
    assert_eq!(flushed[0][0].word_norm, "word0");
    assert_eq!(flushed[0][0].lang_code, "de");
    assert_eq!(flushed[0][0].pos, "noun");
    assert_eq!(flushed[0][0].data, "{\"n\":0}");
    assert_eq!(flushed[1][99].word, "Word199");
    let end = imp.finish();
    assert_eq!(end.rest.len(), 50);
    assert_eq!(end.rest[0].word, "Word200");
    match end.progress {
        Progress::Importing { entries } => assert_eq!(entries, 250),
        other => panic!("unexpected {other:?}"),
    }
    assert_eq!(end.languages.len(), 2);
    assert_eq!(end.languages[0].code, "de");
    assert_eq!(end.languages[0].name, "German");
    assert_eq!(end.languages[0].count, 84);
    assert_eq!(end.languages[1].code, "en");
    assert_eq!(end.languages[1].name, "English");
    assert_eq!(end.languages[1].count, 166);
    let total: i64 = end.languages.iter().map(|l| l.count).sum();
    assert_eq!(total, 250);
}

#[test]
fn import_progress_every_fifty_thousand_entries() {
    let mut imp = Importer::new();
    let mut reports = Vec::new();
    for i in 0..100_001u32 {
        let lang = if i % 2 == 0 { "xq" } else { "en" };
        let step = imp.add(entry("w", lang), String::new());
        if let Some(Progress::Importing { entries }) = step.progress {
            reports.push(entries);
        }
    }
    assert_eq!(reports, vec![50_000, 100_000]);
    let end = imp.finish();
    assert_eq!(end.rest.len(), 1);
    assert_eq!(end.languages[0].code, "en");
    assert_eq!(end.languages[1].code, "xq");
    assert_eq!(end.languages[1].name, "xq");
    assert_eq!(end.languages[1].count, 50_001);
}
