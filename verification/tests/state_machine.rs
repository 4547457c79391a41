use glossa::db::LanguageInfo;
use glossa::entry::Entry;
use glossa::importer::Progress;
use glossa::library::{Library, Settings};
use glossa::pages::{key_message, KeyPress, NamedKey};
use glossa::state::{AppState, Effect, InstallState, Message, Overlay, Screen};

fn s(x: &str) -> String {
    x.to_string()
}

fn entry(word: &str) -> Entry {
    Entry {
        word: s(word),
        lang_code: s("en"),
        pos: s("noun"),
        etymology_text: None,
        senses: vec![],
        sounds: vec![],
        tags: vec![],
        forms: vec![],
    }
}

fn li(code: &str, name: &str, count: i64) -> LanguageInfo {
    LanguageInfo { code: s(code), name: s(name), count }
}

fn describe(effects: &[Effect]) -> Vec<String> {
    effects
        .iter()
        .map(|e| match e {
            Effect::Lookup { word, lang } => format!("lookup {word} {lang}"),
            Effect::Suggest { lang, prefix } => format!("suggest {lang} {prefix}"),
            Effect::OpenDatabase { code } => format!("open {code}"),
            Effect::CloseDatabase => s("close"),
            Effect::SaveSettings => s("save"),
            Effect::RemoveDatabase { code } => format!("remove {code}"),
            Effect::Rescan => s("rescan"),
            Effect::StartInstall { edition } => format!("install {}", edition.code),
            Effect::FocusSearch => s("focus"),
        })
        .collect()
}

fn library(files: &[&str], active: Option<&str>) -> Library {
    let names: Vec<String> = files.iter().map(|f| s(f)).collect();
    Library::load(&names, Settings { active_edition: active.map(s), active_lang: None })
}

/// A window whose English dictionary is open with English and German.
fn opened() -> AppState {
    let (mut app, effects) = AppState::new(library(&["en.db"], Some("en")));
    assert_eq!(describe(&effects), vec!["close", "open en"]);
    app.finish_open("en", Ok(vec![li("en", "English", 2), li("de", "German", 1)]));
    app
}

#[test]
fn without_a_dictionary_the_window_says_so() {
    let (app, effects) = AppState::new(library(&[], None));
    assert_eq!(describe(&effects), vec!["close"]);
    assert_eq!(app.status.as_deref(), Some("No dictionary installed. Open Settings to install one."));
    assert!(!app.connected);
    assert_eq!(app.screen, Screen::Search);
}

#[test]
fn opening_picks_the_edition_language() {
    let app = opened();
    assert!(app.connected);
    assert_eq!(app.active_lang.as_deref(), Some("en"));
    assert_eq!(app.lang_selected.as_ref().unwrap().label, "English");
    assert!(app.status.is_none());
    assert!(app.shows_language_switcher());
}

#[test]
fn a_failed_open_reports_the_error() {
    let (mut app, _) = AppState::new(library(&["en.db"], Some("en")));
    app.finish_open("en", Err(s("unable to open database file")));
    assert!(!app.connected);
    assert_eq!(app.status.as_deref(), Some("Failed to open dictionary: unable to open database file"));
}

#[test]
fn typing_asks_for_suggestions_and_submit_takes_the_highlighted_one() {
    let mut app = opened();
    let e = app.update(Message::SearchInputChanged(s("  Do")));
    assert_eq!(describe(&e), vec!["suggest en Do"]);
    app.set_suggestions(vec![s("do"), s("dog"), s("door")]);
    assert!(app.update(Message::SuggestionDown).is_empty());
    assert!(app.update(Message::SuggestionDown).is_empty());
    assert!(app.update(Message::SuggestionDown).is_empty());
    assert_eq!(app.selected_suggestion, 2);
    app.update(Message::SuggestionUp);
    assert_eq!(app.selected_suggestion, 1);
    let e = app.update(Message::SearchSubmitted);
    assert_eq!(describe(&e), vec!["lookup dog en"]);
    assert_eq!(app.screen, Screen::Result);
    assert!(app.search_word.is_empty());
    assert!(app.suggestions.is_empty());
    assert_eq!(app.current_view, Some((s("dog"), s("en"))));
    app.finish_lookup("dog", Ok(vec![entry("dog")]));
    assert_eq!(app.results.len(), 1);
    assert!(app.status.is_none());
    assert!(app.result_hint().is_none());
}

#[test]
fn empty_input_clears_suggestions() {
    let mut app = opened();
    app.update(Message::SearchInputChanged(s("d")));
    app.set_suggestions(vec![s("dog")]);
    let e = app.update(Message::SearchInputChanged(s("   ")));
    assert!(e.is_empty());
    assert!(app.suggestions.is_empty());
    assert_eq!(app.selected_suggestion, 0);
}

#[test]
fn lookups_report_no_results_and_errors() {
    let mut app = opened();
    app.finish_lookup("xyzzy", Ok(vec![]));
    assert_eq!(app.status.as_deref(), Some("No results for \u{201C}xyzzy\u{201D}"));
    assert_eq!(app.result_hint().as_deref(), Some("No results for \u{201C}xyzzy\u{201D}"));
    app.finish_lookup("dog", Err(s("disk I/O error")));
    assert_eq!(app.status.as_deref(), Some("Lookup error: disk I/O error"));
    app.status = None;
    assert_eq!(app.result_hint().as_deref(), Some("No matching words found"));
}

#[test]
fn links_build_a_trail_that_back_and_crumbs_walk() {
    let mut app = opened();
    app.update(Message::SuggestionClicked(s("Hund")));
    assert_eq!(app.current_view, Some((s("Hund"), s("en"))));
    let e = app.update(Message::LinkClicked(s("dog")));
    assert_eq!(describe(&e), vec!["lookup dog en"]);
    app.update(Message::LinkClicked(s("canine")));
    assert_eq!(app.history, vec![(s("Hund"), s("en")), (s("dog"), s("en"))]);
    let e = app.update(Message::Back);
    assert_eq!(describe(&e), vec!["lookup dog en"]);
    assert_eq!(app.current_view, Some((s("dog"), s("en"))));
    assert_eq!(app.history, vec![(s("Hund"), s("en"))]);
    app.update(Message::LinkClicked(s("wolf")));
    let e = app.update(Message::GoToCrumb(0));
    assert_eq!(describe(&e), vec!["lookup Hund en"]);
    assert!(app.history.is_empty());
    assert!(app.update(Message::GoToCrumb(3)).is_empty());
    let e = app.update(Message::Back);
    assert_eq!(describe(&e), vec!["focus"]);
    assert_eq!(app.screen, Screen::Search);
}

#[test]
fn choosing_a_language_saves_it_and_looks_the_word_up_again() {
    let mut app = opened();
    app.update(Message::SuggestionClicked(s("Hund")));
    let e = app.update(Message::LangSelected(s("de")));
    assert_eq!(describe(&e), vec!["save", "lookup Hund de"]);
    assert_eq!(app.library.active_lang(), Some("de"));
    assert_eq!(app.lang_selected.as_ref().unwrap().label, "German");
    assert_eq!(app.current_view, Some((s("Hund"), s("de"))));
}

#[test]
fn navigation_between_pages() {
    let mut app = opened();
    assert!(app.update(Message::Navigate(Screen::Search)).is_empty());
    assert!(app.update(Message::Navigate(Screen::Settings)).is_empty());
    assert_eq!(app.screen, Screen::Settings);
    assert_eq!(describe(&app.update(Message::Navigate(Screen::Search))), vec!["focus"]);
}

#[test]
fn install_progress_is_tracked_and_the_first_install_activates() {
    let (mut app, _) = AppState::new(library(&[], None));
    let e = app.update(Message::Install(s("de")));
    assert_eq!(describe(&e), vec!["install de"]);
    match app.install_state("de") {
        Some(InstallState::Downloading { received, total }) => {
            assert_eq!(*received, 0);
            assert_eq!(*total, None);
        }
        other => panic!("unexpected {other:?}"),
    }
    app.update(Message::InstallProgress(s("de"), Progress::Downloading { received: 5, total: Some(9) }));
    app.update(Message::InstallProgress(s("de"), Progress::Importing { entries: 7 }));
    match app.install_state("de") {
        Some(InstallState::Importing { entries }) => assert_eq!(*entries, 7),
        other => panic!("unexpected {other:?}"),
    }
    assert_eq!(app.installs.len(), 1);
    let e = app.update(Message::InstallProgress(s("de"), Progress::Done { entries: 7 }));
    assert_eq!(describe(&e), vec!["rescan", "save", "close", "open de"]);
    assert!(app.install_state("de").is_none());
    assert_eq!(app.library.active_edition().unwrap().code, "de");
    app.rescan(&vec![s("de.db")]);
    assert!(app.library.is_installed("de"));
    let rows = app.edition_rows();
    assert_eq!(rows.len(), 11);
    let de = rows.iter().find(|r| r.edition.code == "de").unwrap();
    assert!(de.installed && de.active);
    assert_eq!(de.subtitle, "Installed");
    let en = rows.iter().find(|r| r.edition.code == "en").unwrap();
    assert!(!en.installed && !en.active);
    assert_eq!(en.subtitle, "2.6 GB download");
}

#[test]
fn failed_install_and_unknown_edition() {
    let (mut app, _) = AppState::new(library(&[], None));
    assert!(app.update(Message::Install(s("xx"))).is_empty());
    app.update(Message::InstallProgress(s("xx"), Progress::Failed(s("404"))));
    match app.install_state("xx") {
        Some(InstallState::Failed(e)) => assert_eq!(e, "404"),
        other => panic!("unexpected {other:?}"),
    }
}

#[test]
fn uninstalling_the_active_edition_clears_it() {
    let mut app = opened();
    let e = app.update(Message::Uninstall(s("en")));
    assert_eq!(describe(&e), vec!["remove en", "rescan", "save", "close"]);
    assert!(app.library.active_edition().is_none());
    assert!(!app.connected);
    assert_eq!(app.status.as_deref(), Some("No dictionary installed. Open Settings to install one."));
}

#[test]
fn uninstalling_another_edition_keeps_the_active_one() {
    let mut app = opened();
    let e = app.update(Message::Uninstall(s("fr")));
    assert_eq!(describe(&e), vec!["remove fr", "rescan"]);
    assert!(app.connected);
    let e = app.update(Message::SetActiveEdition(s("fr")));
    assert_eq!(describe(&e), vec!["save", "close", "open fr"]);
}

#[test]
fn keys_map_to_messages() {
    assert!(matches!(key_message(&KeyPress::Character(s(",")), true, false), Some(Message::Navigate(Screen::Settings))));
    assert!(key_message(&KeyPress::Character(s("x")), true, false).is_none());
    assert!(key_message(&KeyPress::Named(NamedKey::Escape), true, false).is_none());
    assert!(matches!(key_message(&KeyPress::Named(NamedKey::Escape), false, false), Some(Message::Navigate(Screen::Search))));
    assert!(matches!(key_message(&KeyPress::Named(NamedKey::ArrowUp), false, false), Some(Message::SuggestionUp)));
    assert!(matches!(key_message(&KeyPress::Named(NamedKey::ArrowDown), false, false), Some(Message::SuggestionDown)));
    assert!(key_message(&KeyPress::Character(s(",")), false, false).is_none());
    assert!(key_message(&KeyPress::Named(NamedKey::Enter), false, false).is_none());
    assert!(key_message(&KeyPress::Unidentified, false, false).is_none());
}

#[test]
fn ctrl_k_and_ctrl_p_toggle_the_overlays() {
    for open in [false, true] {
        assert!(matches!(key_message(&KeyPress::Character(s("k")), true, open), Some(Message::TogglePalette)));
        assert!(matches!(key_message(&KeyPress::Character(s("K")), true, open), Some(Message::TogglePalette)));
        assert!(matches!(key_message(&KeyPress::Character(s("p")), true, open), Some(Message::ToggleWordSearch)));
        assert!(matches!(key_message(&KeyPress::Character(s("P")), true, open), Some(Message::ToggleWordSearch)));
    }
    let mut app = opened();
    assert!(app.update(Message::TogglePalette).is_empty());
    assert_eq!(app.overlay, Some(Overlay::Commands));
    app.update(Message::TogglePalette);
    assert_eq!(app.overlay, None);
    app.update(Message::ToggleWordSearch);
    assert_eq!(app.overlay, Some(Overlay::Words));
    app.update(Message::TogglePalette);
    assert_eq!(app.overlay, Some(Overlay::Commands));
    app.update(Message::ToggleWordSearch);
    app.update(Message::ToggleWordSearch);
    assert_eq!(app.overlay, None);
}

#[test]
fn keys_drive_an_open_overlay() {
    assert!(matches!(key_message(&KeyPress::Named(NamedKey::Escape), false, true), Some(Message::ClosePalette)));
    assert!(matches!(key_message(&KeyPress::Named(NamedKey::ArrowUp), false, true), Some(Message::PaletteUp)));
    assert!(matches!(key_message(&KeyPress::Named(NamedKey::ArrowDown), false, true), Some(Message::PaletteDown)));
    assert!(matches!(key_message(&KeyPress::Named(NamedKey::Enter), false, true), Some(Message::PaletteRun)));
    assert!(matches!(key_message(&KeyPress::Named(NamedKey::Backspace), false, true), Some(Message::PaletteBackspace)));
    match key_message(&KeyPress::Character(s("é")), false, true) {
        Some(Message::PaletteType(t)) => assert_eq!(t, "é"),
        _ => panic!("a character is typed into the overlay"),
    }
    assert!(key_message(&KeyPress::Named(NamedKey::Other), false, true).is_none());
}

#[test]
fn the_command_palette_filters_and_runs_commands() {
    let mut app = opened();
    app.update(Message::TogglePalette);
    app.update(Message::PaletteDown);
    app.update(Message::PaletteDown);
    assert_eq!(app.palette_selected, 1);
    app.update(Message::PaletteType(s("SEA")));
    assert_eq!(app.palette_query, "SEA");
    assert_eq!(app.palette_selected, 0);
    // Only "Go to Search" matches: the highlight cannot move past it.
    app.update(Message::PaletteDown);
    assert_eq!(app.palette_selected, 0);
    app.update(Message::PaletteBackspace);
    assert_eq!(app.palette_query, "SE");
    app.update(Message::PaletteType(s("ttings")));
    // Nothing matches "settings" but "Go to Settings", so it is item 0.
    let e = app.update(Message::PaletteRun);
    assert!(e.is_empty());
    assert_eq!(app.screen, Screen::Settings);
    assert_eq!(app.overlay, None);
    assert!(app.palette_query.is_empty());
    app.update(Message::TogglePalette);
    let e = app.update(Message::PaletteRunIndex(0));
    assert_eq!(describe(&e), vec!["focus"]);
    assert_eq!(app.screen, Screen::Search);
    // Running an item that is not there does nothing.
    app.update(Message::TogglePalette);
    assert!(app.update(Message::PaletteRunIndex(5)).is_empty());
    assert_eq!(app.overlay, Some(Overlay::Commands));
    app.update(Message::ClosePalette);
    assert_eq!(app.overlay, None);
}

#[test]
fn the_word_search_suggests_and_looks_up() {
    let mut app = opened();
    app.update(Message::ToggleWordSearch);
    let e = app.update(Message::PaletteType(s("d")));
    assert_eq!(describe(&e), vec!["suggest en d"]);
    let e = app.update(Message::PaletteType(s("o")));
    assert_eq!(describe(&e), vec!["suggest en do"]);
    app.set_suggestions(vec![s("do"), s("dog"), s("door")]);
    app.update(Message::PaletteDown);
    app.update(Message::PaletteDown);
    app.update(Message::PaletteDown);
    assert_eq!(app.palette_selected, 2);
    app.update(Message::PaletteUp);
    assert_eq!(app.palette_selected, 1);
    let e = app.update(Message::PaletteRun);
    assert_eq!(describe(&e), vec!["lookup dog en"]);
    assert_eq!(app.overlay, None);
    assert_eq!(app.screen, Screen::Result);
    assert_eq!(app.current_view, Some((s("dog"), s("en"))));
    assert!(app.suggestions.is_empty());
    // Deleting the whole query clears the suggestions.
    app.update(Message::ToggleWordSearch);
    app.update(Message::PaletteType(s("x")));
    app.set_suggestions(vec![s("xylophone")]);
    let e = app.update(Message::PaletteBackspace);
    assert!(e.is_empty());
    assert!(app.suggestions.is_empty());
    assert!(app.palette_query.is_empty());
}
