use glossa::entry::{Entry, Example, Form, Sense, Sound};
use glossa::library::{Library, Settings};

fn s(x: &str) -> String {
    x.to_string()
}

fn form(f: &str, tags: &[&str], article: Option<&str>) -> Form {
    Form { form: s(f), tags: tags.iter().map(|t| s(t)).collect(), article: article.map(s) }
}

fn hund() -> Entry {
    Entry {
        word: s("Hund"),
        lang_code: s("de"),
        pos: s("noun"),
        etymology_text: Some(s("From Middle High German hunt.")),
        senses: vec![
            Sense { glosses: vec![], examples: vec![], links: vec![] },
            Sense {
                glosses: vec![s("dog"), s("hound")],
                examples: vec![Example { text: s("Der Hund bellt.") }, Example { text: s("") }],
                links: vec![vec![s("Katze"), s("Katze#German")], vec![], vec![s(""), s("x")]],
            },
            Sense {
                glosses: vec![s("scoundrel")],
                examples: vec![],
                links: vec![vec![s("Schuft")]],
            },
        ],
        sounds: vec![Sound { ipa: Some(s("/hʊnt/")) }, Sound { ipa: None }, Sound { ipa: Some(s("[hʊnt]")) }],
        tags: vec![s("masculine")],
        forms: vec![
            form("Hunde", &["nominative", "plural"], Some("die")),
            form("Hund", &["singular", "nominative"], Some("der")),
            form("Hund", &["nominative", "singular"], Some("den")),
        ],
    }
}

#[test]
fn article_is_that_of_the_first_nominative_singular_form() {
    let e = hund();
    assert_eq!(e.article(), Some("der"));
}

#[test]
fn article_is_none_without_nominative_singular_or_without_article() {
    let mut e = hund();
    e.forms = vec![form("Hunde", &["nominative", "plural"], Some("die"))];
    assert_eq!(e.article(), None);
    e.forms = vec![
        form("Hund", &["nominative", "singular"], None),
        form("Hund", &["nominative", "singular"], Some("der")),
    ];
    assert_eq!(e.article(), None);
}

#[test]
fn outline_numbers_senses_with_glosses_from_one() {
    let o = hund().outline();
    assert_eq!(o.headword, "Hund");
    assert_eq!(o.pos, "noun");
    assert_eq!(o.ipa_line, Some(s("/hʊnt/   [hʊnt]")));
    assert_eq!(o.senses.len(), 2);
    assert_eq!(o.senses[0].number, 1);
    assert_eq!(o.senses[0].gloss_line, "dog; hound");
    assert_eq!(o.senses[0].examples, vec![s("Der Hund bellt.")]);
    assert_eq!(o.senses[0].related, vec![s("Katze")]);
    assert_eq!(o.senses[1].number, 2);
    assert_eq!(o.senses[1].gloss_line, "scoundrel");
    assert_eq!(o.senses[1].related, vec![s("Schuft")]);
    assert_eq!(o.etymology, Some(s("From Middle High German hunt.")));
}

#[test]
fn outline_drops_empty_etymology_and_missing_ipa() {
    let mut e = hund();
    e.etymology_text = Some(s(""));
    e.sounds = vec![Sound { ipa: None }];
    let o = e.outline();
    assert_eq!(o.etymology, None);
    assert_eq!(o.ipa_line, None);
    assert_eq!(e.ipas().len(), 0);
}

fn names(list: &[&str]) -> Vec<String> {
    list.iter().map(|n| s(n)).collect()
}

#[test]
fn scan_keeps_edition_databases_sorted() {
    let files = names(&["fr.db", "notes.txt", "en.db", "xx.db", ".db", "en.db.bak", "de.db", "zh.gz.tmp", "settings.json"]);
    let lib = Library::load(&files, Settings::default());
    assert!(lib.is_installed("de"));
    assert!(lib.is_installed("en"));
    assert!(lib.is_installed("fr"));
    assert!(!lib.is_installed("zh"));
    assert!(!lib.is_installed("xx"));
    let eds = lib.installed_editions();
    let codes: Vec<&str> = eds.iter().map(|e| e.code).collect();
    assert_eq!(codes, vec!["de", "en", "fr"]);
}

#[test]
fn rescan_replaces_the_installed_list() {
    let mut lib = Library::load(&names(&["en.db"]), Settings::default());
    lib.rescan(&names(&["pt.db", "ja.db"]));
    let eds = lib.installed_editions();
    let codes: Vec<&str> = eds.iter().map(|e| e.code).collect();
    assert_eq!(codes, vec!["ja", "pt"]);
    assert!(!lib.is_installed("en"));
}

#[test]
fn selection_reads_back_what_was_set() {
    let mut lib = Library::load(&names(&["en.db", "de.db"]), Settings::default());
    assert!(lib.active_edition().is_none());
    assert!(lib.active_lang().is_none());
    lib.set_active_edition("de");
    assert_eq!(lib.active_edition().unwrap().name, "German");
    lib.set_active_lang("la");
    assert_eq!(lib.active_lang(), Some("la"));
    assert_eq!(lib.settings().active_edition.as_deref(), Some("de"));
    lib.set_active_edition("xx");
    assert!(lib.active_edition().is_none());
    lib.clear_active_edition();
    assert!(lib.active_edition().is_none());
    assert!(lib.active_lang().is_none());
    assert!(lib.settings().active_edition.is_none());
}

#[test]
fn installed_codes_are_catalog_editions_each_once_and_survive_a_copy() {
    let mut lib = Library::load(&names(&["xx.db", "es.db", "en.db", "qq.db"]), Settings::default());
    let eds = lib.installed_editions();
    assert_eq!(eds.len(), 2);
    assert_eq!(eds[0].code, "en");
    assert_eq!(eds[1].code, "es");
    assert!(!lib.is_installed("xx"));
    lib.set_active_edition("es");
    let copy = lib.clone();
    let codes: Vec<&str> = copy.installed_editions().iter().map(|e| e.code).collect();
    assert_eq!(codes, vec!["en", "es"]);
    assert_eq!(copy.settings().active_edition.as_deref(), Some("es"));
    lib.rescan(&names(&["de.db"]));
    assert!(copy.is_installed("en"));
    assert!(!lib.is_installed("en"));
}
