use glossa::db::LanguageInfo;
use glossa::palette::commands;
use glossa::search::{find_lang, initial_lang, lang_options};
use glossa::state::Screen;

fn li(code: &str, name: &str, count: i64) -> LanguageInfo {
    LanguageInfo { code: code.to_string(), name: name.to_string(), count }
}

fn langs() -> Vec<LanguageInfo> {
    vec![li("en", "English", 10), li("la", "Latin", 5), li("de", "German", 2)]
}

#[test]
fn options_carry_code_and_name() {
    let opts = lang_options(&langs());
    assert_eq!(opts.len(), 3);
    assert_eq!(opts[1].code, "la");
    assert_eq!(opts[1].label, "Latin");
    let de = find_lang(&langs(), "de").unwrap();
    assert_eq!(de.label, "German");
    assert!(find_lang(&langs(), "fr").is_none());
}

#[test]
fn initial_language_prefers_saved_then_edition_then_most_populous() {
    assert_eq!(initial_lang(Some("la"), &langs(), "de"), Some("la".to_string()));
    assert_eq!(initial_lang(Some("fr"), &langs(), "de"), Some("de".to_string()));
    assert_eq!(initial_lang(None, &langs(), "de"), Some("de".to_string()));
    assert_eq!(initial_lang(None, &langs(), "ja"), Some("en".to_string()));
    assert_eq!(initial_lang(Some("la"), &Vec::new(), "de"), None);
}

#[test]
fn palette_matches_case_insensitive_substrings_in_order() {
    assert_eq!(commands().len(), 2);
    let all = glossa::palette::matches("");
    assert_eq!(all.len(), 2);
    assert_eq!(all[0].label, "Go to Search");
    assert_eq!(all[0].target, Screen::Search);
    assert_eq!(all[1].target, Screen::Settings);
    let set = glossa::palette::matches("  SET ");
    assert_eq!(set.len(), 1);
    assert_eq!(set[0].label, "Go to Settings");
    assert_eq!(glossa::palette::matches("go to s").len(), 2);
    assert!(glossa::palette::matches("xyz").is_empty());
}

#[test]
fn a_longer_query_keeps_a_subsequence_of_the_matches() {
    let wide = glossa::palette::matches("s");
    let narrow = glossa::palette::matches("set");
    assert_eq!(wide.len(), 2);
    assert_eq!(narrow.len(), 1);
    assert_eq!(narrow[0].label, wide[1].label);
    assert!(glossa::palette::matches("settingsx").is_empty());
}
