use glossa::catalog::{edition, editions, lang_name};
use glossa::paths::{db_file_name, SETTINGS_FILE_NAME};

#[test]
fn catalog_lists_eleven_editions_in_order() {
    let all = editions();
    assert_eq!(all.len(), 11);
    assert_eq!(all[0].code, "en");
    assert_eq!(all[0].name, "English");
    assert_eq!(all[0].url, "https://kaikki.org/dictionary/raw-wiktextract-data.jsonl.gz");
    assert_eq!(all[0].size, "2.6 GB");
    assert_eq!(all[10].code, "pt");
    assert_eq!(all[10].size, "33 MB");
}

#[test]
fn edition_is_found_by_code() {
    let de = edition("de").unwrap();
    assert_eq!(de.name, "German");
    assert_eq!(de.url, "https://kaikki.org/dictionary/downloads/de/de-extract.jsonl.gz");
    assert!(edition("xx").is_none());
    assert!(edition("").is_none());
    assert!(edition("EN").is_none());
}

#[test]
fn every_edition_is_found_by_its_own_code() {
    for e in editions() {
        let found = edition(e.code).unwrap();
        assert_eq!(found.code, e.code);
        assert_eq!(found.name, e.name);
    }
}

#[test]
fn lang_name_knows_common_codes_and_falls_back_to_the_code() {
    assert_eq!(lang_name("en"), "English");
    assert_eq!(lang_name("grc"), "Ancient Greek");
    assert_eq!(lang_name("vi"), "Vietnamese");
    assert_eq!(lang_name("xyz"), "xyz");
    assert_eq!(lang_name(""), "");
}

#[test]
fn database_and_settings_file_names() {
    assert_eq!(db_file_name("en"), "en.db");
    assert_eq!(db_file_name("pt"), "pt.db");
    assert_eq!(SETTINGS_FILE_NAME, "settings.json");
}
