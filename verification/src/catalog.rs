//! Static catalog of installable Wiktionary editions, plus a small map from
//! language codes to display names for the search-page language switcher.
use vstd::prelude::*;

use crate::text::str_eq;

verus! {

/// A downloadable Wiktionary edition. `code` is the edition's gloss language;
/// the built database lives at `<data_dir>/{code}.db` and contains every
/// headword language that edition defines.
#[derive(Debug, Clone, Copy)]
pub struct Edition {
    /// Gloss-language code, e.g. "en". Also the DB filename stem.
    pub code: &'static str,
    /// Human-readable edition name, e.g. "English".
    pub name: &'static str,
    /// Full download URL of the `.jsonl.gz` dump.
    pub url: &'static str,
    /// Approximate compressed download size, for display.
    pub size: &'static str,
}

/// All editions the app knows how to install, in catalog order.
///
/// The English edition uses the combined raw Wiktextract dump; the others use
/// per-edition extracts. Base URL: `https://kaikki.org/dictionary/`.
pub open spec fn spec_editions() -> Seq<Edition> {
    seq![
        Edition {
            code: "en",
            name: "English",
            url: "https://kaikki.org/dictionary/raw-wiktextract-data.jsonl.gz",
            size: "2.6 GB",
        },
        Edition {
            code: "fr",
            name: "French",
            url: "https://kaikki.org/dictionary/downloads/fr/fr-extract.jsonl.gz",
            size: "672 MB",
        },
        Edition {
            code: "de",
            name: "German",
            url: "https://kaikki.org/dictionary/downloads/de/de-extract.jsonl.gz",
            size: "285 MB",
        },
        Edition {
            code: "ru",
            name: "Russian",
            url: "https://kaikki.org/dictionary/downloads/ru/ru-extract.jsonl.gz",
            size: "274 MB",
        },
        Edition {
            code: "zh",
            name: "Chinese",
            url: "https://kaikki.org/dictionary/downloads/zh/zh-extract.jsonl.gz",
            size: "213 MB",
        },
        Edition {
            code: "pl",
            name: "Polish",
            url: "https://kaikki.org/dictionary/downloads/pl/pl-extract.jsonl.gz",
            size: "124 MB",
        },
        Edition {
            code: "nl",
            name: "Dutch",
            url: "https://kaikki.org/dictionary/downloads/nl/nl-extract.jsonl.gz",
            size: "120 MB",
        },
        Edition {
            code: "es",
            name: "Spanish",
            url: "https://kaikki.org/dictionary/downloads/es/es-extract.jsonl.gz",
            size: "96 MB",
        },
        Edition {
            code: "ja",
            name: "Japanese",
            url: "https://kaikki.org/dictionary/downloads/ja/ja-extract.jsonl.gz",
            size: "57 MB",
        },
        Edition {
            code: "it",
            name: "Italian",
            url: "https://kaikki.org/dictionary/downloads/it/it-extract.jsonl.gz",
            size: "38 MB",
        },
        Edition {
            code: "pt",
            name: "Portuguese",
            url: "https://kaikki.org/dictionary/downloads/pt/pt-extract.jsonl.gz",
            size: "33 MB",
        },
    ]
}

/// Common ISO-639 codes and their English names. Not exhaustive; unknown
/// codes show raw.
pub open spec fn spec_lang_names() -> Seq<(&'static str, &'static str)> {
    seq![
        ("en", "English"),
        ("de", "German"),
        ("fr", "French"),
        ("es", "Spanish"),
        ("it", "Italian"),
        ("pt", "Portuguese"),
        ("nl", "Dutch"),
        ("ru", "Russian"),
        ("pl", "Polish"),
        ("la", "Latin"),
        ("grc", "Ancient Greek"),
        ("el", "Greek"),
        ("ja", "Japanese"),
        ("zh", "Chinese"),
        ("ko", "Korean"),
        ("ar", "Arabic"),
        ("he", "Hebrew"),
        ("hi", "Hindi"),
        ("fa", "Persian"),
        ("tr", "Turkish"),
        ("sv", "Swedish"),
        ("no", "Norwegian"),
        ("da", "Danish"),
        ("fi", "Finnish"),
        ("cs", "Czech"),
        ("uk", "Ukrainian"),
        ("ga", "Irish"),
        ("cy", "Welsh"),
        ("eo", "Esperanto"),
        ("vi", "Vietnamese"),
    ]
}

/// The first edition of `list` whose code is `code`.
pub open spec fn spec_first_edition(list: Seq<Edition>, code: Seq<char>) -> Option<Edition>
    decreases list.len(),
{
    if list.len() == 0 {
        None
    } else if list[0].code@ == code {
        Some(list[0])
    } else {
        spec_first_edition(list.drop_first(), code)
    }
}

/// The catalog edition whose code is `code`.
pub open spec fn spec_edition(code: Seq<char>) -> Option<Edition> {
    spec_first_edition(spec_editions(), code)
}

/// The display name that the first entry of `list` with code `code` gives,
/// or `code` itself where there is none.
pub open spec fn spec_first_name(list: Seq<(&'static str, &'static str)>, code: Seq<char>) -> Seq<char>
    decreases list.len(),
{
    if list.len() == 0 {
        code
    } else if list[0].0@ == code {
        list[0].1@
    } else {
        spec_first_name(list.drop_first(), code)
    }
}

/// Display name of a headword language code; the code itself when unknown.
pub open spec fn spec_lang_name(code: Seq<char>) -> Seq<char> {
    spec_first_name(spec_lang_names(), code)
}

proof fn lemma_first_edition_code(list: Seq<Edition>, code: Seq<char>)
    ensures
        spec_first_edition(list, code) matches Some(e) ==> e.code@ == code,
    decreases list.len(),
{
    if list.len() > 0 {
        lemma_first_edition_code(list.drop_first(), code);
    }
}

/// The edition found for a code has that code.
pub proof fn lemma_edition_code(code: Seq<char>)
    ensures
        spec_edition(code) matches Some(e) ==> e.code@ == code,
{
    lemma_first_edition_code(spec_editions(), code);
}

/// Every catalog edition is the one found by its own code: no two editions
/// share a code.
pub proof fn law_edition_found_by_code(i: int)
    requires
        0 <= i < spec_editions().len(),
    ensures
        spec_edition(spec_editions()[i].code@) == Some(spec_editions()[i]),
{
    reveal_strlit("en");
    reveal_strlit("fr");
    reveal_strlit("de");
    reveal_strlit("ru");
    reveal_strlit("zh");
    reveal_strlit("pl");
    reveal_strlit("nl");
    reveal_strlit("es");
    reveal_strlit("ja");
    reveal_strlit("it");
    reveal_strlit("pt");
    assert("en"@ =~= seq!['e', 'n']);
    assert("fr"@ =~= seq!['f', 'r']);
    assert("de"@ =~= seq!['d', 'e']);
    assert("ru"@ =~= seq!['r', 'u']);
    assert("zh"@ =~= seq!['z', 'h']);
    assert("pl"@ =~= seq!['p', 'l']);
    assert("nl"@ =~= seq!['n', 'l']);
    assert("es"@ =~= seq!['e', 's']);
    assert("ja"@ =~= seq!['j', 'a']);
    assert("it"@ =~= seq!['i', 't']);
    assert("pt"@ =~= seq!['p', 't']);
    reveal_with_fuel(spec_first_edition, 12);
    let l = spec_editions();
    assert(l.drop_first() =~= l.subrange(1, 11));
}

proof fn lemma_first_name_fallback(list: Seq<(&'static str, &'static str)>, code: Seq<char>)
    requires
        forall|i: int| 0 <= i < list.len() ==> (#[trigger] list[i]).0@ != code,
    ensures
        spec_first_name(list, code) == code,
    decreases list.len(),
{
    if list.len() > 0 {
        assert(list[0].0@ != code);
        assert forall|i: int| 0 <= i < list.drop_first().len() implies (#[trigger] list.drop_first()[i]).0@ != code by {
            assert(list.drop_first()[i] == list[i + 1]);
        }
        lemma_first_name_fallback(list.drop_first(), code);
    }
}

/// A language code that the name table does not know is shown as it is.
pub proof fn law_unknown_code_shows_raw(code: Seq<char>)
    requires
        forall|i: int| 0 <= i < spec_lang_names().len() ==> (#[trigger] spec_lang_names()[i]).0@ != code,
    ensures
        spec_lang_name(code) == code,
{
    lemma_first_name_fallback(spec_lang_names(), code);
}

/// All editions the app knows how to install, in catalog order.
pub fn editions() -> (r: Vec<Edition>)
    ensures
        r@ == spec_editions(),
{
    let r = vec![
        Edition {
            code: "en",
            name: "English",
            url: "https://kaikki.org/dictionary/raw-wiktextract-data.jsonl.gz",
            size: "2.6 GB",
        },
        Edition {
            code: "fr",
            name: "French",
            url: "https://kaikki.org/dictionary/downloads/fr/fr-extract.jsonl.gz",
            size: "672 MB",
        },
        Edition {
            code: "de",
            name: "German",
            url: "https://kaikki.org/dictionary/downloads/de/de-extract.jsonl.gz",
            size: "285 MB",
        },
        Edition {
            code: "ru",
            name: "Russian",
            url: "https://kaikki.org/dictionary/downloads/ru/ru-extract.jsonl.gz",
            size: "274 MB",
        },
        Edition {
            code: "zh",
            name: "Chinese",
            url: "https://kaikki.org/dictionary/downloads/zh/zh-extract.jsonl.gz",
            size: "213 MB",
        },
        Edition {
            code: "pl",
            name: "Polish",
            url: "https://kaikki.org/dictionary/downloads/pl/pl-extract.jsonl.gz",
            size: "124 MB",
        },
        Edition {
            code: "nl",
            name: "Dutch",
            url: "https://kaikki.org/dictionary/downloads/nl/nl-extract.jsonl.gz",
            size: "120 MB",
        },
        Edition {
            code: "es",
            name: "Spanish",
            url: "https://kaikki.org/dictionary/downloads/es/es-extract.jsonl.gz",
            size: "96 MB",
        },
        Edition {
            code: "ja",
            name: "Japanese",
            url: "https://kaikki.org/dictionary/downloads/ja/ja-extract.jsonl.gz",
            size: "57 MB",
        },
        Edition {
            code: "it",
            name: "Italian",
            url: "https://kaikki.org/dictionary/downloads/it/it-extract.jsonl.gz",
            size: "38 MB",
        },
        Edition {
            code: "pt",
            name: "Portuguese",
            url: "https://kaikki.org/dictionary/downloads/pt/pt-extract.jsonl.gz",
            size: "33 MB",
        },
    ];
    assert(r@ =~= spec_editions());
    r
}

fn lang_names() -> (r: Vec<(&'static str, &'static str)>)
    ensures
        r@ == spec_lang_names(),
{
    let r = vec![
        ("en", "English"),
        ("de", "German"),
        ("fr", "French"),
        ("es", "Spanish"),
        ("it", "Italian"),
        ("pt", "Portuguese"),
        ("nl", "Dutch"),
        ("ru", "Russian"),
        ("pl", "Polish"),
        ("la", "Latin"),
        ("grc", "Ancient Greek"),
        ("el", "Greek"),
        ("ja", "Japanese"),
        ("zh", "Chinese"),
        ("ko", "Korean"),
        ("ar", "Arabic"),
        ("he", "Hebrew"),
        ("hi", "Hindi"),
        ("fa", "Persian"),
        ("tr", "Turkish"),
        ("sv", "Swedish"),
        ("no", "Norwegian"),
        ("da", "Danish"),
        ("fi", "Finnish"),
        ("cs", "Czech"),
        ("uk", "Ukrainian"),
        ("ga", "Irish"),
        ("cy", "Welsh"),
        ("eo", "Esperanto"),
        ("vi", "Vietnamese"),
    ];
    assert(r@ =~= spec_lang_names());
    r
}

/// Look up an edition by its code.
pub fn edition(code: &str) -> (r: Option<Edition>)
    ensures
        r == spec_edition(code@),
{
    let list = editions();
    let mut i: usize = 0;
    assert(list@.skip(0) =~= list@);
    while i < list.len()
        invariant
            list@ == spec_editions(),
            i <= list.len(),
            spec_edition(code@) == spec_first_edition(list@.skip(i as int), code@),
        decreases list.len() - i,
    {
        assert(list@.skip(i as int).drop_first() =~= list@.skip(i + 1));
        if str_eq(list[i].code, code) {
            return Some(list[i]);
        }
        i = i + 1;
    }
    None
}

/// Display name for a (headword) language code; falls back to the raw code.
pub fn lang_name<'a>(code: &'a str) -> (r: &'a str)
    ensures
        r@ == spec_lang_name(code@),
{
    let list = lang_names();
    let mut i: usize = 0;
    assert(list@.skip(0) =~= list@);
    while i < list.len()
        invariant
            list@ == spec_lang_names(),
            i <= list.len(),
            spec_lang_name(code@) == spec_first_name(list@.skip(i as int), code@),
        decreases list.len() - i,
    {
        assert(list@.skip(i as int).drop_first() =~= list@.skip(i + 1));
        if str_eq(list[i].0, code) {
            return list[i].1;
        }
        i = i + 1;
    }
    code
}

} // verus!
