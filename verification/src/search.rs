//! The headword-language switcher of the search page: its options, and which
//! language it starts on when a dictionary is opened.
use vstd::prelude::*;

use crate::db::LanguageInfo;
use crate::text::str_eq;

verus! {

/// A selectable headword language for the switcher, shown by its name.
#[derive(Debug, Clone)]
pub struct Lang {
    pub code: String,
    /// The name shown for this option.
    pub label: String,
}

/// The option for `li`: its code, labelled with its name.
pub open spec fn spec_option_of(li: LanguageInfo, l: Lang) -> bool {
    l.code == li.code && l.label == li.name
}

/// The first language of `langs` with code `code`.
pub open spec fn spec_first_lang(langs: Seq<LanguageInfo>, code: Seq<char>) -> Option<LanguageInfo>
    decreases langs.len(),
{
    if langs.len() == 0 {
        None
    } else if langs[0].code@ == code {
        Some(langs[0])
    } else {
        spec_first_lang(langs.drop_first(), code)
    }
}

/// Build the selectable language options from an edition's language list.
pub fn lang_options(langs: &Vec<LanguageInfo>) -> (r: Vec<Lang>)
    ensures
        r@.len() == langs@.len(),
        forall|i: int| 0 <= i < langs@.len() ==> spec_option_of(langs@[i], #[trigger] r@[i]),
{
    let mut r: Vec<Lang> = Vec::new();
    let mut i: usize = 0;
    while i < langs.len()
        invariant
            i <= langs.len(),
            r@.len() == i,
            forall|j: int| 0 <= j < i ==> spec_option_of(langs@[j], #[trigger] r@[j]),
        decreases langs.len() - i,
    {
        r.push(Lang { code: langs[i].code.clone(), label: langs[i].name.clone() });
        i = i + 1;
    }
    r
}

/// Find the option matching a language code.
pub fn find_lang(langs: &Vec<LanguageInfo>, code: &str) -> (r: Option<Lang>)
    ensures
        match spec_first_lang(langs@, code@) {
            Some(li) => r is Some && spec_option_of(li, r.unwrap()),
            None => r is None,
        },
{
    let mut i: usize = 0;
    assert(langs@.skip(0) =~= langs@);
    while i < langs.len()
        invariant
            i <= langs.len(),
            spec_first_lang(langs@, code@) == spec_first_lang(langs@.skip(i as int), code@),
        decreases langs.len() - i,
    {
        assert(langs@.skip(i as int).drop_first() =~= langs@.skip(i + 1));
        if str_eq(langs[i].code.as_str(), code) {
            return Some(Lang { code: langs[i].code.clone(), label: langs[i].name.clone() });
        }
        i = i + 1;
    }
    None
}

/// The headword language a freshly opened dictionary starts on: the saved
/// choice if the dictionary has that language, else the edition's own
/// language if it has that, else its most populous language (the first of
/// the list), else none.
pub open spec fn spec_initial_lang(
    saved: Option<Seq<char>>,
    langs: Seq<LanguageInfo>,
    edition_code: Seq<char>,
) -> Option<Seq<char>> {
    if saved is Some && spec_first_lang(langs, saved.unwrap()) is Some {
        saved
    } else if spec_first_lang(langs, edition_code) is Some {
        Some(edition_code)
    } else if langs.len() > 0 {
        Some(langs[0].code@)
    } else {
        None
    }
}

/// Whether `langs` holds a language with code `code`.
fn has_lang(langs: &Vec<LanguageInfo>, code: &str) -> (r: bool)
    ensures
        r == spec_first_lang(langs@, code@) is Some,
{
    let mut i: usize = 0;
    assert(langs@.skip(0) =~= langs@);
    while i < langs.len()
        invariant
            i <= langs.len(),
            spec_first_lang(langs@, code@) == spec_first_lang(langs@.skip(i as int), code@),
        decreases langs.len() - i,
    {
        assert(langs@.skip(i as int).drop_first() =~= langs@.skip(i + 1));
        if str_eq(langs[i].code.as_str(), code) {
            return true;
        }
        i = i + 1;
    }
    false
}

/// Pick the headword language for a freshly opened dictionary of edition
/// `edition_code` whose languages are `langs`, given the `saved` choice.
pub fn initial_lang(saved: Option<&str>, langs: &Vec<LanguageInfo>, edition_code: &str) -> (r: Option<
    String,
>)
    ensures
        match spec_initial_lang(
            match saved {
                Some(s) => Some(s@),
                None => None,
            },
            langs@,
            edition_code@,
        ) {
            Some(c) => r is Some && r.unwrap()@ == c,
            None => r is None,
        },
{
    match saved {
        Some(s) => {
            if has_lang(langs, s) {
                return Some(String::from_str(s));
            }
        },
        None => {},
    }
    if has_lang(langs, edition_code) {
        return Some(String::from_str(edition_code));
    }
    if langs.len() > 0 {
        return Some(langs[0].code.clone());
    }
    None
}

/// The language picked for a freshly opened dictionary is one of its
/// languages whenever it has any, and there is none exactly when it has none.
pub proof fn law_initial_lang_is_offered(
    saved: Option<Seq<char>>,
    langs: Seq<LanguageInfo>,
    edition_code: Seq<char>,
)
    ensures
        spec_initial_lang(saved, langs, edition_code) is None <==> langs.len() == 0,
        spec_initial_lang(saved, langs, edition_code) matches Some(c) ==> spec_first_lang(
            langs,
            c,
        ) is Some,
{
    if langs.len() > 0 {
        assert(spec_first_lang(langs, langs[0].code@) is Some);
    }
}

} // verus!
