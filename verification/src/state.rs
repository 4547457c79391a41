//! The application's state machine: what the dictionary window holds, how
//! each message changes it, and which effects (database queries, file
//! removal, settings writes, installs, focus) the caller then performs.
//!
//! Effects are performed in the order given. Those whose outcome feeds back
//! into the state are answered by calling `finish_open`, `finish_lookup`,
//! `set_suggestions` and `rescan` with what they gave.
use vstd::prelude::*;

use crate::catalog::{edition, spec_edition, Edition};
use crate::db::LanguageInfo;
use crate::entry::Entry;
use crate::importer::Progress;
use crate::library::{spec_scanned, Library};
use crate::search::{find_lang, initial_lang, spec_first_lang, spec_initial_lang, Lang};
use crate::palette::{spec_commands, spec_matching};
use crate::text::{concat, spec_lowercase, spec_trim, trim};

verus! {

/// How many autocomplete suggestions an `Effect::Suggest` asks for.
pub const SUGGESTION_LIMIT: usize = 8;

/// The pages of the window.
#[derive(Debug, Clone, Copy, PartialEq, Eq, Structural)]
pub enum Screen {
    Search,
    Result,
    Settings,
}

/// The overlay drawn over the page: the command palette (Ctrl+K), which
/// runs commands, or the word search (Ctrl+P), which looks up a suggested
/// word.
#[derive(Debug, Clone, Copy, PartialEq, Eq, Structural)]
pub enum Overlay {
    Commands,
    Words,
}

/// Transient per-edition install state (shown on the Settings page).
#[derive(Debug, Clone)]
pub enum InstallState {
    Downloading { received: u64, total: Option<u64> },
    Importing { entries: u64 },
    Failed(String),
}

/// What the user (or an install in progress) asks of the window.
#[derive(Debug, Clone)]
pub enum Message {
    SearchInputChanged(String),
    Navigate(Screen),
    Back,
    GoToCrumb(usize),
    // Search page
    LangSelected(String),
    LinkClicked(String),
    SuggestionClicked(String),
    SuggestionUp,
    SuggestionDown,
    // Settings page
    Install(String),
    Uninstall(String),
    SetActiveEdition(String),
    InstallProgress(String, Progress),
    SearchSubmitted,
    // Overlays
    /// Open the command palette, or close it where it is open.
    TogglePalette,
    /// Open the word search, or close it where it is open.
    ToggleWordSearch,
    /// Type text into the open overlay's query.
    PaletteType(String),
    /// Delete the last character of the open overlay's query.
    PaletteBackspace,
    PaletteUp,
    PaletteDown,
    /// Run the highlighted item of the open overlay.
    PaletteRun,
    /// Run the item at this position of the open overlay.
    PaletteRunIndex(usize),
    ClosePalette,
}

/// Work the caller performs for the state machine, in order.
#[derive(Debug)]
pub enum Effect {
    /// Look `word` up in language `lang` and hand the outcome to
    /// `finish_lookup`.
    Lookup { word: String, lang: String },
    /// Ask the autocomplete for `prefix` in language `lang` and hand the
    /// words (none on error) to `set_suggestions`.
    Suggest { lang: String, prefix: String },
    /// Open the database of edition `code` read-only, list its languages (none
    /// on error) and hand the outcome to `finish_open`.
    OpenDatabase { code: String },
    /// Drop the open database connection.
    CloseDatabase,
    /// Write the library's settings to disk.
    SaveSettings,
    /// Delete the database file of edition `code`.
    RemoveDatabase { code: String },
    /// List the data directory and hand the file names to `rescan`.
    Rescan,
    /// Download and import `edition` off the UI thread, reporting its
    /// progress back as `Message::InstallProgress`.
    StartInstall { edition: Edition },
    /// Put the keyboard focus on the search box.
    FocusSearch,
}

/// Spec form of an effect.
pub enum EffectView {
    Lookup(Seq<char>, Seq<char>),
    Suggest(Seq<char>, Seq<char>),
    OpenDatabase(Seq<char>),
    CloseDatabase,
    SaveSettings,
    RemoveDatabase(Seq<char>),
    Rescan,
    StartInstall(Edition),
    FocusSearch,
}

impl Effect {
    pub open spec fn view(&self) -> EffectView {
        match self {
            Effect::Lookup { word, lang } => EffectView::Lookup(word@, lang@),
            Effect::Suggest { lang, prefix } => EffectView::Suggest(lang@, prefix@),
            Effect::OpenDatabase { code } => EffectView::OpenDatabase(code@),
            Effect::CloseDatabase => EffectView::CloseDatabase,
            Effect::SaveSettings => EffectView::SaveSettings,
            Effect::RemoveDatabase { code } => EffectView::RemoveDatabase(code@),
            Effect::Rescan => EffectView::Rescan,
            Effect::StartInstall { edition } => EffectView::StartInstall(*edition),
            Effect::FocusSearch => EffectView::FocusSearch,
        }
    }
}

/// The effects `v` asks for, in spec form.
pub open spec fn effects_view(v: Seq<Effect>) -> Seq<EffectView> {
    v.map_values(|e: Effect| e.view())
}

/// Spec form of the persisted selection.
pub struct SettingsModel {
    pub active_edition: Option<Seq<char>>,
    pub active_lang: Option<Seq<char>>,
}

/// Spec form of the window's state.
#[verifier::ext_equal]
pub struct AppModel {
    pub screen: Screen,
    /// Installed edition codes, sorted.
    pub installed: Seq<Seq<char>>,
    pub settings: SettingsModel,
    pub search_word: Seq<char>,
    /// A database is open.
    pub connected: bool,
    pub languages: Seq<LanguageInfo>,
    pub active_lang: Option<Seq<char>>,
    /// The switcher's selected option: code and label.
    pub lang_selected: Option<(Seq<char>, Seq<char>)>,
    pub suggestions: Seq<Seq<char>>,
    pub selected: usize,
    pub results: Seq<Entry>,
    pub status: Option<Seq<char>>,
    /// The (word, language) on display.
    pub current_view: Option<(Seq<char>, Seq<char>)>,
    /// Previously viewed (word, language) pairs, oldest first.
    pub history: Seq<(Seq<char>, Seq<char>)>,
    /// In-flight installs by edition code.
    pub installs: Map<Seq<char>, InstallState>,
    /// The open overlay, if any.
    pub overlay: Option<Overlay>,
    /// What was typed into the open overlay.
    pub palette_query: Seq<char>,
    /// Index of the overlay item highlighted by arrow-key navigation.
    pub palette_selected: usize,
}

pub open spec fn opt_view(o: Option<String>) -> Option<Seq<char>> {
    match o {
        Some(s) => Some(s@),
        None => None,
    }
}

pub open spec fn pair_view(p: (String, String)) -> (Seq<char>, Seq<char>) {
    (p.0@, p.1@)
}

pub open spec fn opt_pair_view(o: Option<(String, String)>) -> Option<(Seq<char>, Seq<char>)> {
    match o {
        Some(p) => Some(pair_view(p)),
        None => None,
    }
}

/// The in-flight installs that a list of (code, state) pairs records; a later
/// pair for a code replaces an earlier one.
pub open spec fn installs_view(v: Seq<(String, InstallState)>) -> Map<Seq<char>, InstallState>
    decreases v.len(),
{
    if v.len() == 0 {
        Map::empty()
    } else {
        installs_view(v.drop_last()).insert(v.last().0@, v.last().1)
    }
}

/// The message "No dictionary installed. Open Settings to install one."
pub open spec fn spec_no_dictionary() -> Seq<char> {
    "No dictionary installed. Open Settings to install one."@
}

/// The message for a dictionary that failed to open with error `e`.
pub open spec fn spec_open_failed(e: Seq<char>) -> Seq<char> {
    "Failed to open dictionary: "@ + e
}

/// The message for a lookup of `word` that found nothing.
pub open spec fn spec_no_results(word: Seq<char>) -> Seq<char> {
    "No results for \u{201C}"@ + word + "\u{201D}"@
}

/// The message for a lookup that failed with error `e`.
pub open spec fn spec_lookup_error(e: Seq<char>) -> Seq<char> {
    "Lookup error: "@ + e
}

/// The active edition that the model's settings select.
pub open spec fn spec_model_edition(m: AppModel) -> Option<Edition> {
    match m.settings.active_edition {
        Some(c) => spec_edition(c),
        None => None,
    }
}

/// The language to search in: the active one, or English.
pub open spec fn spec_lang_or_en(l: Option<Seq<char>>) -> Seq<char> {
    match l {
        Some(c) => c,
        None => "en"@,
    }
}

/// The code of the active edition, or English: the gloss language that links
/// inside explanations point into.
pub open spec fn spec_gloss_lang(m: AppModel) -> Seq<char> {
    match spec_model_edition(m) {
        Some(e) => e.code@,
        None => "en"@,
    }
}

/// The switcher option for language `code` of `langs`.
pub open spec fn spec_lang_option(langs: Seq<LanguageInfo>, code: Seq<char>) -> Option<
    (Seq<char>, Seq<char>),
> {
    match spec_first_lang(langs, code) {
        Some(li) => Some((li.code@, li.name@)),
        None => None,
    }
}

/// A lookup of `word` in `lang` is run where a database is open.
pub open spec fn spec_run_lookup(m: AppModel, word: Seq<char>, lang: Seq<char>) -> Seq<EffectView> {
    if m.connected {
        seq![EffectView::Lookup(word, lang)]
    } else {
        Seq::empty()
    }
}

/// Look up the typed word in the active headword language, starting a fresh
/// navigation trail. An empty query clears the results.
pub open spec fn spec_lookup_typed(m: AppModel) -> (AppModel, Seq<EffectView>) {
    let w = spec_trim(m.search_word);
    if w.len() == 0 {
        (AppModel { results: Seq::empty(), status: None, ..m }, Seq::empty())
    } else if !m.connected {
        (m, Seq::empty())
    } else {
        let lang = spec_lang_or_en(m.active_lang);
        (
            AppModel { history: Seq::empty(), current_view: Some((w, lang)), ..m },
            seq![EffectView::Lookup(w, lang)],
        )
    }
}

/// Show the result page for `word` and clear the search box.
pub open spec fn spec_submit(m: AppModel, word: Seq<char>) -> (AppModel, Seq<EffectView>) {
    let (m2, e) = spec_lookup_typed(AppModel { search_word: word, screen: Screen::Result, ..m });
    (AppModel { search_word: Seq::empty(), suggestions: Seq::empty(), ..m2 }, e)
}

/// Refresh the autocomplete for the search box.
pub open spec fn spec_refresh(m: AppModel) -> (AppModel, Seq<EffectView>) {
    let w = spec_trim(m.search_word);
    if w.len() == 0 || !m.connected {
        (AppModel { suggestions: Seq::empty(), selected: 0, ..m }, Seq::empty())
    } else {
        (m, seq![EffectView::Suggest(spec_lang_or_en(m.active_lang), w)])
    }
}

/// Close the database and open the active edition's, if there is one.
pub open spec fn spec_open_active(m: AppModel) -> (AppModel, Seq<EffectView>) {
    let m1 = AppModel {
        connected: false,
        languages: Seq::empty(),
        results: Seq::empty(),
        suggestions: Seq::empty(),
        lang_selected: None,
        ..m
    };
    match spec_model_edition(m) {
        None => (AppModel { status: Some(spec_no_dictionary()), ..m1 }, seq![EffectView::CloseDatabase]),
        Some(e) => (m1, seq![EffectView::CloseDatabase, EffectView::OpenDatabase(e.code@)]),
    }
}

/// Move to `word` in `lang` from the result page, keeping the word on display
/// in the back history.
pub open spec fn spec_navigate(m: AppModel, word: Seq<char>, lang: Seq<char>) -> (AppModel, Seq<EffectView>) {
    if !m.connected {
        (m, Seq::empty())
    } else {
        let history = match m.current_view {
            Some(v) => m.history.push(v),
            None => m.history,
        };
        (
            AppModel { history, current_view: Some((word, lang)), ..m },
            seq![EffectView::Lookup(word, lang)],
        )
    }
}

/// Select `code` as the active edition, save, and open it.
pub open spec fn spec_activate(m: AppModel, code: Seq<char>) -> (AppModel, Seq<EffectView>) {
    let m1 = AppModel {
        settings: SettingsModel { active_edition: Some(code), ..m.settings },
        ..m
    };
    let (m2, e) = spec_open_active(m1);
    (m2, seq![EffectView::SaveSettings] + e)
}

/// The items that the open overlay offers: the number of commands matching
/// its query, or of suggested words; none where no overlay is open.
pub open spec fn spec_overlay_len(m: AppModel) -> nat {
    match m.overlay {
        Some(Overlay::Commands) => spec_matching(
            spec_commands(),
            spec_lowercase(spec_trim(m.palette_query)),
        ).len(),
        Some(Overlay::Words) => m.suggestions.len(),
        None => 0,
    }
}

/// The overlay `o` closed where it is open, and opened with an empty query
/// otherwise (the word search also starting without suggestions).
pub open spec fn spec_toggle(m: AppModel, o: Overlay) -> AppModel {
    if m.overlay == Some(o) {
        AppModel { overlay: None, palette_query: Seq::empty(), palette_selected: 0, ..m }
    } else {
        let m1 = AppModel {
            overlay: Some(o),
            palette_query: Seq::empty(),
            palette_selected: 0,
            ..m
        };
        if o == Overlay::Words {
            AppModel { suggestions: Seq::empty(), selected: 0, ..m1 }
        } else {
            m1
        }
    }
}

/// The overlay's query became `query`: the first item is highlighted, and the
/// word search asks for the words that start with the query.
pub open spec fn spec_overlay_query(m: AppModel, query: Seq<char>) -> (AppModel, Seq<EffectView>) {
    let m1 = AppModel { palette_query: query, palette_selected: 0, ..m };
    if m.overlay == Some(Overlay::Words) {
        let w = spec_trim(query);
        if w.len() == 0 || !m.connected {
            (AppModel { suggestions: Seq::empty(), selected: 0, ..m1 }, Seq::empty())
        } else {
            (m1, seq![EffectView::Suggest(spec_lang_or_en(m.active_lang), w)])
        }
    } else {
        (m1, Seq::empty())
    }
}

/// Show page `s`, focusing the search box when it is the search page.
pub open spec fn spec_goto(m: AppModel, s: Screen) -> (AppModel, Seq<EffectView>) {
    if s == m.screen {
        (m, Seq::empty())
    } else if s == Screen::Search {
        (AppModel { screen: s, ..m }, seq![EffectView::FocusSearch])
    } else {
        (AppModel { screen: s, ..m }, Seq::empty())
    }
}

/// Run item `i` of the open overlay: close the overlay, then go to the
/// command's page, or show the result page for the word. Nothing where no
/// overlay is open or there is no such item.
pub open spec fn spec_run_item(m: AppModel, i: usize) -> (AppModel, Seq<EffectView>) {
    let closed = AppModel { overlay: None, palette_query: Seq::empty(), palette_selected: 0, ..m };
    if i >= spec_overlay_len(m) {
        (m, Seq::empty())
    } else {
        match m.overlay {
            Some(Overlay::Commands) => spec_goto(
                closed,
                spec_matching(spec_commands(), spec_lowercase(spec_trim(m.palette_query)))[i as int].target,
            ),
            Some(Overlay::Words) => spec_submit(closed, m.suggestions[i as int]),
            None => (m, Seq::empty()),
        }
    }
}

/// The state once the database of edition `code` was opened and listed its
/// languages (`Ok`), or failed to open (`Err` with its message).
pub open spec fn spec_finish_open(
    m: AppModel,
    code: Seq<char>,
    outcome: Result<Seq<LanguageInfo>, Seq<char>>,
) -> AppModel {
    match outcome {
        Ok(langs) => {
            let al = spec_initial_lang(m.settings.active_lang, langs, code);
            AppModel {
                languages: langs,
                active_lang: al,
                lang_selected: match al {
                    Some(c) => spec_lang_option(langs, c),
                    None => None,
                },
                connected: true,
                status: None,
                ..m
            }
        },
        Err(e) => AppModel { status: Some(spec_open_failed(e)), ..m },
    }
}

/// The state once a lookup of `word` gave `outcome`: the entries found, or
/// the error's message.
pub open spec fn spec_finish_lookup(
    m: AppModel,
    word: Seq<char>,
    outcome: Result<Seq<Entry>, Seq<char>>,
) -> AppModel {
    match outcome {
        Ok(r) => if r.len() == 0 {
            AppModel { results: Seq::empty(), status: Some(spec_no_results(word)), ..m }
        } else {
            AppModel { results: r, status: None, ..m }
        },
        Err(e) => AppModel { results: Seq::empty(), status: Some(spec_lookup_error(e)), ..m },
    }
}

/// The state after `msg`, and the effects it asks for.
pub open spec fn spec_update(m: AppModel, msg: Message) -> (AppModel, Seq<EffectView>) {
    match msg {
        Message::SearchInputChanged(input) => {
            let m1 = AppModel {
                search_word: input@,
                status: if m.connected {
                    None
                } else {
                    m.status
                },
                ..m
            };
            spec_refresh(m1)
        },
        Message::SearchSubmitted => {
            let word = if m.selected < m.suggestions.len() {
                m.suggestions[m.selected as int]
            } else {
                m.search_word
            };
            spec_submit(m, word)
        },
        Message::SuggestionClicked(word) => spec_submit(m, word@),
        Message::SuggestionUp => (
            AppModel {
                selected: if m.selected > 0 {
                    (m.selected - 1) as usize
                } else {
                    0
                },
                ..m
            },
            Seq::empty(),
        ),
        Message::SuggestionDown => (
            AppModel {
                selected: if m.selected + 1 < m.suggestions.len() {
                    (m.selected + 1) as usize
                } else {
                    m.selected
                },
                ..m
            },
            Seq::empty(),
        ),
        Message::Navigate(s) => spec_goto(m, s),
        Message::TogglePalette => (spec_toggle(m, Overlay::Commands), Seq::empty()),
        Message::ToggleWordSearch => (spec_toggle(m, Overlay::Words), Seq::empty()),
        Message::PaletteType(t) => {
            if m.overlay is None {
                (m, Seq::empty())
            } else {
                spec_overlay_query(m, m.palette_query + t@)
            }
        },
        Message::PaletteBackspace => {
            if m.overlay is None {
                (m, Seq::empty())
            } else if m.palette_query.len() == 0 {
                spec_overlay_query(m, m.palette_query)
            } else {
                spec_overlay_query(m, m.palette_query.drop_last())
            }
        },
        Message::PaletteUp => (
            AppModel {
                palette_selected: if m.palette_selected > 0 {
                    (m.palette_selected - 1) as usize
                } else {
                    0
                },
                ..m
            },
            Seq::empty(),
        ),
        Message::PaletteDown => (
            AppModel {
                palette_selected: if m.palette_selected + 1 < spec_overlay_len(m) {
                    (m.palette_selected + 1) as usize
                } else {
                    m.palette_selected
                },
                ..m
            },
            Seq::empty(),
        ),
        Message::PaletteRun => spec_run_item(m, m.palette_selected),
        Message::PaletteRunIndex(i) => spec_run_item(m, i),
        Message::ClosePalette => (
            AppModel { overlay: None, palette_query: Seq::empty(), palette_selected: 0, ..m },
            Seq::empty(),
        ),
        Message::LangSelected(l) => {
            let m1 = AppModel {
                settings: SettingsModel { active_lang: Some(l@), ..m.settings },
                active_lang: Some(l@),
                lang_selected: spec_lang_option(m.languages, l@),
                ..m
            };
            match m.current_view {
                Some((word, _)) => (
                    AppModel { current_view: Some((word, l@)), ..m1 },
                    seq![EffectView::SaveSettings] + spec_run_lookup(m1, word, l@),
                ),
                None => (m1, seq![EffectView::SaveSettings]),
            }
        },
        Message::LinkClicked(word) => spec_navigate(m, word@, spec_gloss_lang(m)),
        Message::Back => {
            if m.history.len() > 0 {
                let (word, lang) = m.history.last();
                (
                    AppModel {
                        history: m.history.drop_last(),
                        current_view: Some((word, lang)),
                        ..m
                    },
                    spec_run_lookup(m, word, lang),
                )
            } else {
                (AppModel { screen: Screen::Search, ..m }, seq![EffectView::FocusSearch])
            }
        },
        Message::GoToCrumb(i) => {
            if i < m.history.len() {
                let (word, lang) = m.history[i as int];
                (
                    AppModel {
                        history: m.history.take(i as int),
                        current_view: Some((word, lang)),
                        ..m
                    },
                    spec_run_lookup(m, word, lang),
                )
            } else {
                (m, Seq::empty())
            }
        },
        Message::Install(code) => {
            let m1 = AppModel {
                installs: m.installs.insert(
                    code@,
                    InstallState::Downloading { received: 0, total: None },
                ),
                ..m
            };
            match spec_edition(code@) {
                Some(e) => (m1, seq![EffectView::StartInstall(e)]),
                None => (m1, Seq::empty()),
            }
        },
        Message::Uninstall(code) => {
            let was_active = spec_model_edition(m) matches Some(e) && e.code@ == code@;
            let m1 = AppModel { installs: m.installs.remove(code@), ..m };
            let e1 = seq![EffectView::RemoveDatabase(code@), EffectView::Rescan];
            if was_active {
                let m2 = AppModel {
                    settings: SettingsModel { active_edition: None, active_lang: None },
                    ..m1
                };
                let (m3, e3) = spec_open_active(m2);
                (m3, e1 + seq![EffectView::SaveSettings] + e3)
            } else {
                (m1, e1)
            }
        },
        Message::SetActiveEdition(code) => spec_activate(m, code@),
        Message::InstallProgress(code, p) => match p {
            Progress::Downloading { received, total } => (
                AppModel {
                    installs: m.installs.insert(
                        code@,
                        InstallState::Downloading { received, total },
                    ),
                    ..m
                },
                Seq::empty(),
            ),
            Progress::Importing { entries } => (
                AppModel {
                    installs: m.installs.insert(code@, InstallState::Importing { entries }),
                    ..m
                },
                Seq::empty(),
            ),
            Progress::Failed(e) => (
                AppModel { installs: m.installs.insert(code@, InstallState::Failed(e)), ..m },
                Seq::empty(),
            ),
            Progress::Done { .. } => {
                let m1 = AppModel { installs: m.installs.remove(code@), ..m };
                if spec_model_edition(m1) is None {
                    let (m2, e2) = spec_activate(m1, code@);
                    (m2, seq![EffectView::Rescan] + e2)
                } else {
                    (m1, seq![EffectView::Rescan])
                }
            },
        },
    }
}

/// What the dictionary window holds.
pub struct AppState {
    pub screen: Screen,
    pub library: Library,
    pub search_word: String,
    /// A database connection is open (the caller holds it).
    pub connected: bool,
    /// The languages of the open dictionary, most populous first; the
    /// switcher offers `lang_options` of them.
    pub languages: Vec<LanguageInfo>,
    pub active_lang: Option<String>,
    /// The switcher's currently selected option.
    pub lang_selected: Option<Lang>,
    /// Live autocomplete matches for the text currently in the search box.
    pub suggestions: Vec<String>,
    /// Index into `suggestions` highlighted by arrow-key navigation; the
    /// first match is selected by default.
    pub selected_suggestion: usize,
    pub results: Vec<Entry>,
    pub status: Option<String>,
    /// The (word, language) currently displayed (last lookup).
    pub current_view: Option<(String, String)>,
    /// Previously viewed (word, language) pairs, for the Back button.
    pub history: Vec<(String, String)>,
    /// In-flight installs: (edition code, state); a later pair for a code
    /// replaces an earlier one.
    pub installs: Vec<(String, InstallState)>,
    /// The open overlay, if any.
    pub overlay: Option<Overlay>,
    /// What was typed into the open overlay.
    pub palette_query: String,
    /// Index of the overlay item highlighted by arrow-key navigation.
    pub palette_selected: usize,
}

impl View for AppState {
    type V = AppModel;

    open spec fn view(&self) -> AppModel {
        AppModel {
            screen: self.screen,
            installed: self.library.installed_codes(),
            settings: SettingsModel {
                active_edition: opt_view(self.library.spec_settings().active_edition),
                active_lang: opt_view(self.library.spec_settings().active_lang),
            },
            search_word: self.search_word@,
            connected: self.connected,
            languages: self.languages@,
            active_lang: opt_view(self.active_lang),
            lang_selected: match self.lang_selected {
                Some(l) => Some((l.code@, l.label@)),
                None => None,
            },
            suggestions: self.suggestions@.map_values(|s: String| s@),
            selected: self.selected_suggestion,
            results: self.results@,
            status: opt_view(self.status),
            current_view: opt_pair_view(self.current_view),
            history: self.history@.map_values(|p: (String, String)| pair_view(p)),
            installs: installs_view(self.installs@),
            overlay: self.overlay,
            palette_query: self.palette_query@,
            palette_selected: self.palette_selected,
        }
    }
}

proof fn lemma_installs_view_remove(v: Seq<(String, InstallState)>, i: int, code: Seq<char>, kept: Seq<(String, InstallState)>)
    requires
        0 <= i < v.len(),
        installs_view(kept) == installs_view(v.take(i)).remove(code),
    ensures
        v[i].0@ == code ==> installs_view(kept) == installs_view(v.take(i + 1)).remove(code),
        v[i].0@ != code ==> installs_view(kept.push(v[i])) == installs_view(v.take(i + 1)).remove(code),
{
    assert(v.take(i + 1).drop_last() =~= v.take(i));
    let base = installs_view(v.take(i));
    if v[i].0@ == code {
        assert(base.insert(code, v[i].1).remove(code) =~= base.remove(code));
    } else {
        assert(kept.push(v[i]).drop_last() =~= kept);
        assert(base.remove(code).insert(v[i].0@, v[i].1) =~= base.insert(v[i].0@, v[i].1).remove(code));
    }
}

/// A new (empty) effect list.
fn no_effects() -> (r: Vec<Effect>)
    ensures
        effects_view(r@) == Seq::<EffectView>::empty(),
{
    let r: Vec<Effect> = Vec::new();
    assert(effects_view(r@) =~= Seq::<EffectView>::empty());
    r
}

/// Append `e` to the effect list.
fn push_effect(effects: &mut Vec<Effect>, e: Effect)
    ensures
        effects_view(final(effects)@) == effects_view(old(effects)@).push(e.view()),
{
    effects.push(e);
    assert(effects_view(effects@) =~= effects_view(old(effects)@).push(e.view()));
}

impl AppState {
    /// Drop the in-flight install of `code`, if any.
    fn remove_install(&mut self, code: &str)
        ensures
            final(self)@ == (AppModel { installs: old(self)@.installs.remove(code@), ..old(self)@ }),
    {
        let mut old_installs: Vec<(String, InstallState)> = Vec::new();
        core::mem::swap(&mut old_installs, &mut self.installs);
        let ghost v = old_installs@;
        let mut kept: Vec<(String, InstallState)> = Vec::new();
        assert(installs_view(kept@) =~= installs_view(v.take(0)).remove(code@));
        for item in it: old_installs
            invariant
                it.seq() == v,
                installs_view(kept@) == installs_view(v.take(it.index() as int)).remove(code@),
        {
            proof {
                lemma_installs_view_remove(v, it.index() as int, code@, kept@);
            }
            if !crate::text::str_eq(item.0.as_str(), code) {
                kept.push(item);
            }
        }
        assert(v.take(v.len() as int) =~= v);
        self.installs = kept;
        assert(self@ =~= (AppModel { installs: old(self)@.installs.remove(code@), ..old(self)@ }));
    }

    /// Record `st` as the in-flight install state of `code`.
    fn set_install(&mut self, code: String, st: InstallState)
        ensures
            final(self)@ == (AppModel { installs: old(self)@.installs.insert(code@, st), ..old(self)@ }),
    {
        self.remove_install(code.as_str());
        let ghost mid = self.installs@;
        self.installs.push((code, st));
        proof {
            assert(self.installs@.drop_last() =~= mid);
            assert(old(self)@.installs.remove(code@).insert(code@, st) =~= old(self)@.installs.insert(code@, st));
        }
        assert(self@ =~= (AppModel { installs: old(self)@.installs.insert(code@, st), ..old(self)@ }));
    }
}

impl AppState {
    /// Ask for a lookup of `word` in `lang`, where a database is open.
    fn run_lookup(&self, word: &str, lang: &str, effects: &mut Vec<Effect>)
        ensures
            effects_view(final(effects)@) == effects_view(old(effects)@) + spec_run_lookup(
                self@,
                word@,
                lang@,
            ),
    {
        if self.connected {
            push_effect(effects, Effect::Lookup { word: String::from_str(word), lang: String::from_str(lang) });
            assert(effects_view(effects@) =~= effects_view(old(effects)@) + spec_run_lookup(
                self@,
                word@,
                lang@,
            ));
        } else {
            assert(effects_view(effects@) =~= effects_view(old(effects)@) + spec_run_lookup(
                self@,
                word@,
                lang@,
            ));
        }
    }

    /// The active headword language, or English.
    fn lang_or_en(&self) -> (r: String)
        ensures
            r@ == spec_lang_or_en(self@.active_lang),
    {
        match &self.active_lang {
            Some(l) => l.clone(),
            None => String::from_str("en"),
        }
    }

    /// Look up the word typed in the search box.
    fn lookup_typed(&mut self, effects: &mut Vec<Effect>)
        ensures
            final(self)@ == spec_lookup_typed(old(self)@).0,
            effects_view(final(effects)@) == effects_view(old(effects)@) + spec_lookup_typed(
                old(self)@,
            ).1,
    {
        let w = String::from_str(trim(self.search_word.as_str()));
        if w.as_str().is_empty() {
            self.results = Vec::new();
            self.status = None;
            assert(self@ =~= spec_lookup_typed(old(self)@).0);
            assert(effects_view(effects@) =~= effects_view(old(effects)@) + spec_lookup_typed(
                old(self)@,
            ).1);
            return;
        }
        if !self.connected {
            assert(effects_view(effects@) =~= effects_view(old(effects)@) + spec_lookup_typed(
                old(self)@,
            ).1);
            return;
        }
        let lang = self.lang_or_en();
        self.history = Vec::new();
        self.run_lookup(w.as_str(), lang.as_str(), effects);
        self.current_view = Some((w, lang));
        assert(self@ =~= spec_lookup_typed(old(self)@).0);
    }

    /// Show the result page for `word` and clear the search box.
    fn submit(&mut self, word: String, effects: &mut Vec<Effect>)
        ensures
            final(self)@ == spec_submit(old(self)@, word@).0,
            effects_view(final(effects)@) == effects_view(old(effects)@) + spec_submit(
                old(self)@,
                word@,
            ).1,
    {
        self.search_word = word;
        self.screen = Screen::Result;
        let ghost mid = self@;
        assert(mid =~= (AppModel { search_word: word@, screen: Screen::Result, ..old(self)@ }));
        self.lookup_typed(effects);
        self.search_word = String::new();
        self.suggestions = Vec::new();
        assert(self@ =~= spec_submit(old(self)@, word@).0);
    }

    /// Refresh the autocomplete for the search box.
    fn refresh_suggestions(&mut self, effects: &mut Vec<Effect>)
        ensures
            final(self)@ == spec_refresh(old(self)@).0,
            effects_view(final(effects)@) == effects_view(old(effects)@) + spec_refresh(
                old(self)@,
            ).1,
    {
        let word = String::from_str(trim(self.search_word.as_str()));
        if word.as_str().is_empty() || !self.connected {
            self.suggestions = Vec::new();
            self.selected_suggestion = 0;
            assert(self@ =~= spec_refresh(old(self)@).0);
            assert(effects_view(effects@) =~= effects_view(old(effects)@) + spec_refresh(
                old(self)@,
            ).1);
            return;
        }
        let lang = self.lang_or_en();
        push_effect(effects, Effect::Suggest { lang, prefix: word });
        assert(effects_view(effects@) =~= effects_view(old(effects)@) + spec_refresh(
            old(self)@,
        ).1);
    }

    /// Close the database and open the active edition's, if there is one.
    fn open_active(&mut self, effects: &mut Vec<Effect>)
        ensures
            final(self)@ == spec_open_active(old(self)@).0,
            effects_view(final(effects)@) == effects_view(old(effects)@) + spec_open_active(
                old(self)@,
            ).1,
    {
        self.connected = false;
        push_effect(effects, Effect::CloseDatabase);
        self.languages = Vec::new();
        self.results = Vec::new();
        self.suggestions = Vec::new();
        self.lang_selected = None;
        match self.library.active_edition() {
            None => {
                self.status = Some(String::from_str("No dictionary installed. Open Settings to install one."));
                assert(self@ =~= spec_open_active(old(self)@).0);
                assert(effects_view(effects@) =~= effects_view(old(effects)@) + spec_open_active(
                    old(self)@,
                ).1);
            },
            Some(e) => {
                push_effect(effects, Effect::OpenDatabase { code: String::from_str(e.code) });
                assert(self@ =~= spec_open_active(old(self)@).0);
                assert(effects_view(effects@) =~= effects_view(old(effects)@) + spec_open_active(
                    old(self)@,
                ).1);
            },
        }
    }

    /// Move to `word` in `lang` from the result page.
    fn navigate(&mut self, word: String, lang: String, effects: &mut Vec<Effect>)
        ensures
            final(self)@ == spec_navigate(old(self)@, word@, lang@).0,
            effects_view(final(effects)@) == effects_view(old(effects)@) + spec_navigate(
                old(self)@,
                word@,
                lang@,
            ).1,
    {
        if !self.connected {
            assert(effects_view(effects@) =~= effects_view(old(effects)@) + spec_navigate(
                old(self)@,
                word@,
                lang@,
            ).1);
            return;
        }
        let prev = self.current_view.take();
        match prev {
            Some(p) => {
                self.history.push(p);
            },
            None => {},
        }
        self.run_lookup(word.as_str(), lang.as_str(), effects);
        self.current_view = Some((word, lang));
        assert(self@.history =~= spec_navigate(old(self)@, word@, lang@).0.history);
        assert(self@ =~= spec_navigate(old(self)@, word@, lang@).0);
    }

    /// Select `code` as the active edition, save, and open it.
    fn activate(&mut self, code: &str, effects: &mut Vec<Effect>)
        ensures
            final(self)@ == spec_activate(old(self)@, code@).0,
            effects_view(final(effects)@) == effects_view(old(effects)@) + spec_activate(
                old(self)@,
                code@,
            ).1,
    {
        self.library.set_active_edition(code);
        push_effect(effects, Effect::SaveSettings);
        let ghost mid = self@;
        assert(mid =~= (AppModel {
            settings: SettingsModel { active_edition: Some(code@), ..old(self)@.settings },
            ..old(self)@
        }));
        let ghost e1 = effects@;
        self.open_active(effects);
        assert(effects_view(effects@) =~= effects_view(old(effects)@) + spec_activate(
            old(self)@,
            code@,
        ).1);
    }
}

impl AppState {
    /// Show page `s`, focusing the search box when it is the search page.
    fn goto(&mut self, s: Screen, effects: &mut Vec<Effect>)
        ensures
            final(self)@ == spec_goto(old(self)@, s).0,
            effects_view(final(effects)@) == effects_view(old(effects)@) + spec_goto(old(self)@, s).1,
    {
        if s != self.screen {
            self.screen = s;
            if s == Screen::Search {
                push_effect(effects, Effect::FocusSearch);
            }
        }
        assert(self@ =~= spec_goto(old(self)@, s).0);
        assert(effects_view(effects@) =~= effects_view(old(effects)@) + spec_goto(old(self)@, s).1);
    }

    /// Close the overlay and forget its query.
    fn close_overlay(&mut self)
        ensures
            final(self)@ == (AppModel {
                overlay: None,
                palette_query: Seq::empty(),
                palette_selected: 0,
                ..old(self)@
            }),
    {
        self.overlay = None;
        self.palette_query = String::new();
        self.palette_selected = 0;
        assert(self@ =~= (AppModel {
            overlay: None,
            palette_query: Seq::empty(),
            palette_selected: 0,
            ..old(self)@
        }));
    }

    /// Close overlay `o` where it is open, and open it otherwise.
    fn toggle(&mut self, o: Overlay)
        ensures
            final(self)@ == spec_toggle(old(self)@, o),
    {
        if self.overlay == Some(o) {
            self.close_overlay();
        } else {
            self.overlay = Some(o);
            self.palette_query = String::new();
            self.palette_selected = 0;
            if o == Overlay::Words {
                self.suggestions = Vec::new();
                self.selected_suggestion = 0;
            }
            assert(self@ =~= spec_toggle(old(self)@, o));
        }
    }

    /// The number of items that the open overlay offers.
    fn overlay_len(&self) -> (r: usize)
        ensures
            r == spec_overlay_len(self@),
    {
        match self.overlay {
            Some(Overlay::Commands) => crate::palette::matches(self.palette_query.as_str()).len(),
            Some(Overlay::Words) => self.suggestions.len(),
            None => 0,
        }
    }

    /// The open overlay's query becomes `query`.
    fn set_overlay_query(&mut self, query: String, effects: &mut Vec<Effect>)
        ensures
            final(self)@ == spec_overlay_query(old(self)@, query@).0,
            effects_view(final(effects)@) == effects_view(old(effects)@) + spec_overlay_query(
                old(self)@,
                query@,
            ).1,
    {
        let w = String::from_str(trim(query.as_str()));
        self.palette_query = query;
        self.palette_selected = 0;
        if self.overlay == Some(Overlay::Words) {
            if w.as_str().is_empty() || !self.connected {
                self.suggestions = Vec::new();
                self.selected_suggestion = 0;
            } else {
                let lang = self.lang_or_en();
                push_effect(effects, Effect::Suggest { lang, prefix: w });
            }
        }
        assert(self@ =~= spec_overlay_query(old(self)@, query@).0);
        assert(effects_view(effects@) =~= effects_view(old(effects)@) + spec_overlay_query(
            old(self)@,
            query@,
        ).1);
    }

    /// Run item `i` of the open overlay.
    fn run_item(&mut self, i: usize, effects: &mut Vec<Effect>)
        ensures
            final(self)@ == spec_run_item(old(self)@, i).0,
            effects_view(final(effects)@) == effects_view(old(effects)@) + spec_run_item(
                old(self)@,
                i,
            ).1,
    {
        let n = self.overlay_len();
        if i >= n {
            assert(effects_view(effects@) =~= effects_view(old(effects)@) + spec_run_item(
                old(self)@,
                i,
            ).1);
            return;
        }
        match self.overlay {
            Some(Overlay::Commands) => {
                let found = crate::palette::matches(self.palette_query.as_str());
                let target = found[i].target;
                self.close_overlay();
                self.goto(target, effects);
            },
            Some(Overlay::Words) => {
                let word = self.suggestions[i].clone();
                self.close_overlay();
                self.submit(word, effects);
            },
            None => {},
        }
    }
}

/// The state once the autocomplete gave `words`: the first is highlighted,
/// in the word search too where it is open.
pub open spec fn spec_set_suggestions(m: AppModel, words: Seq<Seq<char>>) -> AppModel {
    AppModel {
        suggestions: words,
        selected: 0,
        palette_selected: if m.overlay == Some(Overlay::Words) {
            0
        } else {
            m.palette_selected
        },
        ..m
    }
}

/// The highlighted suggestion is one of the suggestions whenever there are
/// any, and the highlighted overlay item one of the overlay's items whenever
/// it offers any.
pub open spec fn spec_selection_ok(m: AppModel) -> bool {
    &&& m.suggestions.len() > 0 ==> m.selected < m.suggestions.len()
    &&& spec_overlay_len(m) > 0 ==> m.palette_selected < spec_overlay_len(m)
}

/// Every message keeps the highlighted suggestion within the suggestion list
/// and the highlighted overlay item within the overlay's items.
pub proof fn law_selection_stays_in_range(m: AppModel, msg: Message)
    requires
        spec_selection_ok(m),
    ensures
        spec_selection_ok(spec_update(m, msg).0),
{
    match msg {
        Message::SearchInputChanged(_) => {},
        Message::Navigate(_) => {},
        Message::Back => {},
        Message::GoToCrumb(_) => {},
        Message::LangSelected(_) => {},
        Message::LinkClicked(_) => {},
        Message::SuggestionClicked(_) => {},
        Message::SuggestionUp => {},
        Message::SuggestionDown => {},
        Message::Install(_) => {},
        Message::Uninstall(_) => {},
        Message::SetActiveEdition(_) => {},
        Message::InstallProgress(_, _) => {},
        Message::SearchSubmitted => {},
        Message::TogglePalette => {},
        Message::ToggleWordSearch => {},
        Message::PaletteType(_) => {},
        Message::PaletteBackspace => {},
        Message::PaletteUp => {},
        Message::PaletteDown => {},
        Message::PaletteRun => {},
        Message::PaletteRunIndex(_) => {},
        Message::ClosePalette => {},
    }
}

/// Taking in new suggestions keeps the highlights in range.
pub proof fn law_new_suggestions_keep_selection(m: AppModel, words: Seq<Seq<char>>)
    requires
        spec_selection_ok(m),
    ensures
        spec_selection_ok(spec_set_suggestions(m, words)),
{
}

/// Following a link from a word and then going back shows that word again,
/// with the trail as it was, and looks it up again.
pub proof fn law_back_undoes_link(m: AppModel, word: String)
    requires
        m.connected,
        m.current_view is Some,
    ensures
        ({
            let m1 = spec_update(m, Message::LinkClicked(word)).0;
            let (m2, e2) = spec_update(m1, Message::Back);
            &&& m2.current_view == m.current_view
            &&& m2.history == m.history
            &&& e2 == seq![EffectView::Lookup(m.current_view.unwrap().0, m.current_view.unwrap().1)]
        }),
{
    let m1 = spec_update(m, Message::LinkClicked(word)).0;
    assert(m1.history.drop_last() =~= m.history);
}

/// A link inside an explanation is looked up in the edition's gloss language,
/// without changing the selected headword language.
pub proof fn law_link_uses_gloss_language(m: AppModel, word: String)
    requires
        m.connected,
    ensures
        ({
            let (m1, e1) = spec_update(m, Message::LinkClicked(word));
            &&& m1.active_lang == m.active_lang
            &&& m1.settings == m.settings
            &&& m1.current_view == Some((word@, spec_gloss_lang(m)))
            &&& e1 == seq![EffectView::Lookup(word@, spec_gloss_lang(m))]
        }),
{
}

/// Going back with an empty trail returns to the search page and focuses the
/// search box.
pub proof fn law_back_without_trail(m: AppModel)
    requires
        m.history.len() == 0,
    ensures
        spec_update(m, Message::Back).0 == (AppModel { screen: Screen::Search, ..m }),
        spec_update(m, Message::Back).1 == seq![EffectView::FocusSearch],
{
}

/// Clicking crumb `i` shows that word again and drops it and everything after
/// it from the trail.
pub proof fn law_crumb_truncates_trail(m: AppModel, i: usize)
    requires
        i < m.history.len(),
    ensures
        spec_update(m, Message::GoToCrumb(i)).0.current_view == Some(m.history[i as int]),
        spec_update(m, Message::GoToCrumb(i)).0.history == m.history.take(i as int),
        spec_update(m, Message::GoToCrumb(i)).1 == spec_run_lookup(
            m,
            m.history[i as int].0,
            m.history[i as int].1,
        ),
{
}

/// Submitting a search starts a fresh trail on the result page, and leaves
/// the search box and the suggestions empty.
pub proof fn law_submit_starts_fresh_trail(m: AppModel)
    requires
        m.connected,
        m.suggestions.len() == 0,
        spec_trim(m.search_word).len() > 0,
    ensures
        ({
            let (m1, e1) = spec_update(m, Message::SearchSubmitted);
            &&& m1.screen == Screen::Result
            &&& m1.history.len() == 0
            &&& m1.current_view == Some(
                (spec_trim(m.search_word), spec_lang_or_en(m.active_lang)),
            )
            &&& m1.search_word.len() == 0
            &&& m1.suggestions.len() == 0
            &&& e1 == seq![
                EffectView::Lookup(spec_trim(m.search_word), spec_lang_or_en(m.active_lang)),
            ]
        }),
{
}

/// Choosing a headword language saves it and shows the word on display in
/// that language.
pub proof fn law_language_choice_applies(m: AppModel, l: String)
    requires
        m.connected,
        m.current_view is Some,
    ensures
        ({
            let (m1, e1) = spec_update(m, Message::LangSelected(l));
            &&& m1.settings.active_lang == Some(l@)
            &&& m1.active_lang == Some(l@)
            &&& m1.current_view == Some((m.current_view.unwrap().0, l@))
            &&& e1 == seq![
                EffectView::SaveSettings,
                EffectView::Lookup(m.current_view.unwrap().0, l@),
            ]
        }),
{
    assert(seq![EffectView::SaveSettings] + seq![EffectView::Lookup(m.current_view.unwrap().0, l@)]
        =~= seq![EffectView::SaveSettings, EffectView::Lookup(m.current_view.unwrap().0, l@)]);
}

/// Uninstalling the active edition deletes its database, clears the
/// selection, saves it, and closes the database without opening another.
pub proof fn law_uninstall_active_edition(m: AppModel, code: String)
    requires
        spec_model_edition(m) matches Some(e) && e.code@ == code@,
    ensures
        ({
            let (m1, e1) = spec_update(m, Message::Uninstall(code));
            &&& m1.settings == SettingsModel { active_edition: None, active_lang: None }
            &&& !m1.connected
            &&& m1.status == Some(spec_no_dictionary())
            &&& !m1.installs.contains_key(code@)
            &&& e1 == seq![
                EffectView::RemoveDatabase(code@),
                EffectView::Rescan,
                EffectView::SaveSettings,
                EffectView::CloseDatabase,
            ]
        }),
{
    let (m1, e1) = spec_update(m, Message::Uninstall(code));
    assert(e1 =~= seq![
        EffectView::RemoveDatabase(code@),
        EffectView::Rescan,
        EffectView::SaveSettings,
        EffectView::CloseDatabase,
    ]);
}

/// When the first edition finishes installing, it becomes the active edition
/// and its database is opened.
pub proof fn law_first_install_becomes_active(m: AppModel, code: String, entries: u64)
    requires
        spec_model_edition(m) is None,
        spec_edition(code@) is Some,
    ensures
        ({
            let (m1, e1) = spec_update(m, Message::InstallProgress(code, Progress::Done { entries }));
            &&& m1.settings.active_edition == Some(code@)
            &&& !m1.installs.contains_key(code@)
            &&& e1 == seq![
                EffectView::Rescan,
                EffectView::SaveSettings,
                EffectView::CloseDatabase,
                EffectView::OpenDatabase(code@),
            ]
        }),
{
    let (m1, e1) = spec_update(m, Message::InstallProgress(code, Progress::Done { entries }));
    let e = spec_edition(code@).unwrap();
    crate::catalog::lemma_edition_code(code@);
    assert(e1 =~= seq![
        EffectView::Rescan,
        EffectView::SaveSettings,
        EffectView::CloseDatabase,
        EffectView::OpenDatabase(code@),
    ]);
}

/// Ctrl+K's message opens the command palette where it is closed (or the
/// word search is open in its place), and closes it where it is open; Ctrl+P's
/// does the same with the word search.
pub proof fn law_toggle_opens_or_closes(m: AppModel)
    ensures
        spec_update(m, Message::TogglePalette).0.overlay == if m.overlay == Some(Overlay::Commands) {
            None
        } else {
            Some(Overlay::Commands)
        },
        spec_update(m, Message::ToggleWordSearch).0.overlay == if m.overlay == Some(Overlay::Words) {
            None
        } else {
            Some(Overlay::Words)
        },
        spec_update(m, Message::TogglePalette).1.len() == 0,
        spec_update(m, Message::ToggleWordSearch).1.len() == 0,
{
}

/// Opening and closing the command palette leaves the window as it was.
pub proof fn law_palette_toggle_twice_restores(m: AppModel)
    requires
        m.overlay is None,
        m.palette_query.len() == 0,
        m.palette_selected == 0,
    ensures
        spec_update(spec_update(m, Message::TogglePalette).0, Message::TogglePalette).0 == m,
{
    let m1 = spec_update(m, Message::TogglePalette).0;
    assert(spec_update(m1, Message::TogglePalette).0 =~= m);
}

/// Opening and closing the word search leaves the window as it was, but for
/// the suggestions, which it cleared on opening.
pub proof fn law_word_search_toggle_twice(m: AppModel)
    requires
        m.overlay is None,
        m.palette_query.len() == 0,
        m.palette_selected == 0,
    ensures
        spec_update(spec_update(m, Message::ToggleWordSearch).0, Message::ToggleWordSearch).0 == (
        AppModel { suggestions: Seq::empty(), selected: 0, ..m }),
{
    let m1 = spec_update(m, Message::ToggleWordSearch).0;
    assert(spec_update(m1, Message::ToggleWordSearch).0 =~= (AppModel {
        suggestions: Seq::empty(),
        selected: 0,
        ..m
    }));
}

/// Running a command of the palette closes the palette and shows the
/// command's page.
pub proof fn law_palette_command_goes_to_page(m: AppModel, i: usize)
    requires
        m.overlay == Some(Overlay::Commands),
        i < spec_overlay_len(m),
    ensures
        ({
            let target = spec_matching(
                spec_commands(),
                spec_lowercase(spec_trim(m.palette_query)),
            )[i as int].target;
            let m1 = spec_update(m, Message::PaletteRunIndex(i)).0;
            &&& m1.overlay is None
            &&& m1.palette_query.len() == 0
            &&& m1.screen == target
        }),
{
}

/// Running a word of the word search closes it, shows the result page and
/// looks the word up.
pub proof fn law_word_search_looks_up_word(m: AppModel, i: usize)
    requires
        m.overlay == Some(Overlay::Words),
        m.connected,
        i < m.suggestions.len(),
        spec_trim(m.suggestions[i as int]).len() > 0,
    ensures
        ({
            let w = spec_trim(m.suggestions[i as int]);
            let lang = spec_lang_or_en(m.active_lang);
            let (m1, e1) = spec_update(m, Message::PaletteRunIndex(i));
            &&& m1.overlay is None
            &&& m1.screen == Screen::Result
            &&& m1.current_view == Some((w, lang))
            &&& m1.history.len() == 0
            &&& e1 == seq![EffectView::Lookup(w, lang)]
        }),
{
}

/// Typing into the word search asks the autocomplete for the words that
/// start with the query typed so far.
pub proof fn law_word_search_typing_suggests(m: AppModel, t: String)
    requires
        m.overlay == Some(Overlay::Words),
        m.connected,
        spec_trim(m.palette_query + t@).len() > 0,
    ensures
        spec_update(m, Message::PaletteType(t)).0.palette_query == m.palette_query + t@,
        spec_update(m, Message::PaletteType(t)).1 == seq![
            EffectView::Suggest(spec_lang_or_en(m.active_lang), spec_trim(m.palette_query + t@)),
        ],
{
}

/// A finished install only rescans the data directory where an edition is
/// already active: the selection, the open dictionary and everything else
/// stay as they were, and only the install's progress is dropped.
pub proof fn law_install_keeps_the_active_edition(m: AppModel, code: String, entries: u64)
    requires
        spec_model_edition(m) is Some,
    ensures
        spec_update(m, Message::InstallProgress(code, Progress::Done { entries })) == (
        AppModel { installs: m.installs.remove(code@), ..m },
        seq![EffectView::Rescan],
        ),
{
}

/// Typing into the search box of an open dictionary asks for the words that
/// start with the trimmed input in the selected headword language (English
/// when none is selected), whatever the active edition.
pub proof fn law_suggestions_use_headword_language(m: AppModel, input: String)
    requires
        m.connected,
        spec_trim(input@).len() > 0,
    ensures
        spec_update(m, Message::SearchInputChanged(input)).1 == seq![
            EffectView::Suggest(
                match m.active_lang {
                    Some(l) => l,
                    None => "en"@,
                },
                spec_trim(input@),
            ),
        ],
{
}

/// Typing into the word search of an open dictionary asks for the words that
/// start with the trimmed query in the selected headword language (English
/// when none is selected), whatever the active edition.
pub proof fn law_word_search_uses_headword_language(m: AppModel, t: String)
    requires
        m.overlay == Some(Overlay::Words),
        m.connected,
        spec_trim(m.palette_query + t@).len() > 0,
    ensures
        spec_update(m, Message::PaletteType(t)).1 == seq![
            EffectView::Suggest(
                match m.active_lang {
                    Some(l) => l,
                    None => "en"@,
                },
                spec_trim(m.palette_query + t@),
            ),
        ],
{
}

/// A lookup that found entries shows all of them, in the order found, and no
/// status line; one that found none shows none and says so; a failed one
/// shows none and reports the error.
pub proof fn law_lookup_shows_every_entry(
    m: AppModel,
    word: Seq<char>,
    r: Seq<Entry>,
    err: Seq<char>,
)
    ensures
        r.len() > 0 ==> spec_finish_lookup(m, word, Ok(r)) == (AppModel { results: r, status: None, ..m }),
        r.len() == 0 ==> spec_finish_lookup(m, word, Ok(r)) == (AppModel {
            results: Seq::empty(),
            status: Some(spec_no_results(word)),
            ..m
        }),
        spec_finish_lookup(m, word, Err(err)) == (AppModel {
            results: Seq::empty(),
            status: Some(spec_lookup_error(err)),
            ..m
        }),
{
}

/// Choosing a headword language makes it the active one and the saved one,
/// whether or not a word is on display, and saves the settings first.
pub proof fn law_language_choice_becomes_active(m: AppModel, l: String)
    ensures
        spec_update(m, Message::LangSelected(l)).0.active_lang == Some(l@),
        spec_update(m, Message::LangSelected(l)).0.settings == (SettingsModel {
            active_lang: Some(l@),
            ..m.settings
        }),
        spec_update(m, Message::LangSelected(l)).1.len() > 0,
        spec_update(m, Message::LangSelected(l)).1[0] == EffectView::SaveSettings,
        m.current_view is None ==> spec_update(m, Message::LangSelected(l)).1 == seq![
            EffectView::SaveSettings,
        ],
{
}

/// After choosing a headword language, a search (before any suggestion came
/// in) looks the typed word up in that language.
pub proof fn law_search_after_language_choice(m: AppModel, l: String, input: String)
    requires
        m.connected,
        m.suggestions.len() == 0,
        m.current_view is None,
        spec_trim(input@).len() > 0,
    ensures
        ({
            let m1 = spec_update(m, Message::LangSelected(l)).0;
            let m2 = spec_update(m1, Message::SearchInputChanged(input)).0;
            spec_update(m2, Message::SearchSubmitted).1 == seq![
                EffectView::Lookup(spec_trim(input@), l@),
            ]
        }),
{
}

impl AppState {
    /// A window over `library`, on the search page, with the active edition's
    /// database being opened.
    pub fn new(library: Library) -> (r: (AppState, Vec<Effect>))
        ensures
            ({
                let m0 = AppModel {
                    screen: Screen::Search,
                    installed: library.installed_codes(),
                    settings: SettingsModel {
                        active_edition: opt_view(library.spec_settings().active_edition),
                        active_lang: opt_view(library.spec_settings().active_lang),
                    },
                    search_word: Seq::empty(),
                    connected: false,
                    languages: Seq::empty(),
                    active_lang: None,
                    lang_selected: None,
                    suggestions: Seq::empty(),
                    selected: 0,
                    results: Seq::empty(),
                    status: None,
                    current_view: None,
                    history: Seq::empty(),
                    installs: Map::empty(),
                    overlay: None,
                    palette_query: Seq::empty(),
                    palette_selected: 0,
                };
                r.0@ == spec_open_active(m0).0 && effects_view(r.1@) == spec_open_active(m0).1
            }),
    {
        let mut app = AppState {
            screen: Screen::Search,
            library,
            search_word: String::new(),
            connected: false,
            languages: Vec::new(),
            active_lang: None,
            lang_selected: None,
            suggestions: Vec::new(),
            selected_suggestion: 0,
            results: Vec::new(),
            status: None,
            current_view: None,
            history: Vec::new(),
            installs: Vec::new(),
            overlay: None,
            palette_query: String::new(),
            palette_selected: 0,
        };
        let ghost m0 = app@;
        assert(app@.suggestions =~= Seq::empty());
        assert(app@.history =~= Seq::empty());
        assert(app@.installs =~= Map::empty());
        let mut effects = no_effects();
        app.open_active(&mut effects);
        assert(effects_view(effects@) =~= spec_open_active(m0).1);
        (app, effects)
    }

    /// Handle `msg`: the state becomes what `spec_update` says, and the
    /// returned effects are to be performed in order.
    pub fn update(&mut self, msg: Message) -> (r: Vec<Effect>)
        ensures
            final(self)@ == spec_update(old(self)@, msg).0,
            effects_view(r@) == spec_update(old(self)@, msg).1,
    {
        let mut effects = no_effects();
        let ghost m = self@;
        match msg {
            Message::SearchInputChanged(input) => {
                self.search_word = input;
                if self.connected {
                    self.status = None;
                }
                assert(self@ =~= (AppModel {
                    search_word: input@,
                    status: if m.connected {
                        None
                    } else {
                        m.status
                    },
                    ..m
                }));
                self.refresh_suggestions(&mut effects);
            },
            Message::SearchSubmitted => {
                let word = if self.selected_suggestion < self.suggestions.len() {
                    self.suggestions[self.selected_suggestion].clone()
                } else {
                    self.search_word.clone()
                };
                self.submit(word, &mut effects);
            },
            Message::SuggestionClicked(word) => {
                self.submit(word, &mut effects);
            },
            Message::SuggestionUp => {
                self.selected_suggestion = self.selected_suggestion.saturating_sub(1);
                assert(self@ =~= spec_update(m, msg).0);
            },
            Message::SuggestionDown => {
                let n = self.suggestions.len();
                if n > 0 && self.selected_suggestion < n - 1 {
                    self.selected_suggestion = self.selected_suggestion + 1;
                }
                assert(self@ =~= spec_update(m, msg).0);
            },
            Message::Navigate(s) => {
                self.goto(s, &mut effects);
            },
            Message::TogglePalette => {
                self.toggle(Overlay::Commands);
            },
            Message::ToggleWordSearch => {
                self.toggle(Overlay::Words);
            },
            Message::PaletteType(t) => {
                if self.overlay.is_some() {
                    let q = concat(self.palette_query.as_str(), t.as_str());
                    self.set_overlay_query(q, &mut effects);
                }
            },
            Message::PaletteBackspace => {
                if self.overlay.is_some() {
                    let n = self.palette_query.as_str().unicode_len();
                    let q = if n == 0 {
                        String::new()
                    } else {
                        String::from_str(self.palette_query.as_str().substring_char(0, n - 1))
                    };
                    proof {
                        if n == 0 {
                            assert(q@ =~= m.palette_query);
                        } else {
                            assert(q@ =~= m.palette_query.drop_last());
                        }
                    }
                    self.set_overlay_query(q, &mut effects);
                }
            },
            Message::PaletteUp => {
                self.palette_selected = self.palette_selected.saturating_sub(1);
                assert(self@ =~= spec_update(m, msg).0);
            },
            Message::PaletteDown => {
                let n = self.overlay_len();
                if n > 0 && self.palette_selected < n - 1 {
                    self.palette_selected = self.palette_selected + 1;
                }
                assert(self@ =~= spec_update(m, msg).0);
            },
            Message::PaletteRun => {
                let i = self.palette_selected;
                self.run_item(i, &mut effects);
            },
            Message::PaletteRunIndex(i) => {
                self.run_item(i, &mut effects);
            },
            Message::ClosePalette => {
                self.close_overlay();
            },
            Message::LangSelected(l) => {
                self.library.set_active_lang(l.as_str());
                push_effect(&mut effects, Effect::SaveSettings);
                self.active_lang = Some(l.clone());
                self.lang_selected = find_lang(&self.languages, l.as_str());
                let ghost m1 = self@;
                assert(m1 =~= (AppModel {
                    settings: SettingsModel { active_lang: Some(l@), ..m.settings },
                    active_lang: Some(l@),
                    lang_selected: crate::state::spec_lang_option(m.languages, l@),
                    ..m
                }));
                let cv = self.current_view.take();
                match cv {
                    Some((word, _old_lang)) => {
                        self.run_lookup(word.as_str(), l.as_str(), &mut effects);
                        self.current_view = Some((word, l));
                    },
                    None => {},
                }
                assert(self@ =~= spec_update(m, msg).0);
                assert(effects_view(effects@) =~= spec_update(m, msg).1);
            },
            Message::LinkClicked(word) => {
                let gloss = match self.library.active_edition() {
                    Some(e) => String::from_str(e.code),
                    None => String::from_str("en"),
                };
                self.navigate(word, gloss, &mut effects);
            },
            Message::Back => {
                match self.history.pop() {
                    Some((word, lang)) => {
                        self.run_lookup(word.as_str(), lang.as_str(), &mut effects);
                        self.current_view = Some((word, lang));
                        assert(self@.history =~= m.history.drop_last());
                    },
                    None => {
                        self.screen = Screen::Search;
                        push_effect(&mut effects, Effect::FocusSearch);
                    },
                }
                assert(self@ =~= spec_update(m, msg).0);
                assert(effects_view(effects@) =~= spec_update(m, msg).1);
            },
            Message::GoToCrumb(i) => {
                if i < self.history.len() {
                    let word = self.history[i].0.clone();
                    let lang = self.history[i].1.clone();
                    self.history.truncate(i);
                    self.run_lookup(word.as_str(), lang.as_str(), &mut effects);
                    self.current_view = Some((word, lang));
                    assert(self@.history =~= m.history.take(i as int));
                }
                assert(self@ =~= spec_update(m, msg).0);
                assert(effects_view(effects@) =~= spec_update(m, msg).1);
            },
            Message::Install(code) => {
                let e = edition(code.as_str());
                self.set_install(code, InstallState::Downloading { received: 0, total: None });
                match e {
                    Some(ed) => push_effect(&mut effects, Effect::StartInstall { edition: ed }),
                    None => {},
                }
                assert(effects_view(effects@) =~= spec_update(m, msg).1);
            },
            Message::Uninstall(code) => {
                push_effect(&mut effects, Effect::RemoveDatabase { code: code.clone() });
                let was_active = match self.library.active_edition() {
                    Some(e) => crate::text::str_eq(e.code, code.as_str()),
                    None => false,
                };
                self.remove_install(code.as_str());
                push_effect(&mut effects, Effect::Rescan);
                if was_active {
                    self.library.clear_active_edition();
                    push_effect(&mut effects, Effect::SaveSettings);
                    let ghost m2 = self@;
                    assert(m2 =~= (AppModel {
                        settings: SettingsModel { active_edition: None, active_lang: None },
                        installs: m.installs.remove(code@),
                        ..m
                    }));
                    let ghost e2 = effects@;
                    self.open_active(&mut effects);
                }
                assert(effects_view(effects@) =~= spec_update(m, msg).1);
            },
            Message::SetActiveEdition(code) => {
                self.activate(code.as_str(), &mut effects);
                assert(effects_view(effects@) =~= spec_update(m, msg).1);
            },
            Message::InstallProgress(code, p) => {
                match p {
                    Progress::Downloading { received, total } => {
                        self.set_install(code, InstallState::Downloading { received, total });
                    },
                    Progress::Importing { entries } => {
                        self.set_install(code, InstallState::Importing { entries });
                    },
                    Progress::Failed(e) => {
                        self.set_install(code, InstallState::Failed(e));
                    },
                    Progress::Done { .. } => {
                        self.remove_install(code.as_str());
                        push_effect(&mut effects, Effect::Rescan);
                        if self.library.active_edition().is_none() {
                            let ghost e1 = effects@;
                            self.activate(code.as_str(), &mut effects);
                        }
                    },
                }
                assert(effects_view(effects@) =~= spec_update(m, msg).1);
            },
        }
        effects
    }
}

impl AppState {
    /// Take in the outcome of `Effect::OpenDatabase { code }`: the languages
    /// of the opened database (none where listing them failed), or the
    /// message of the error that kept it from opening.
    pub fn finish_open(&mut self, code: &str, outcome: Result<Vec<LanguageInfo>, String>)
        ensures
            final(self)@ == spec_finish_open(
                old(self)@,
                code@,
                match outcome {
                    Ok(l) => Ok(l@),
                    Err(e) => Err(e@),
                },
            ),
    {
        match outcome {
            Ok(langs) => {
                let al = initial_lang(self.library.active_lang(), &langs, code);
                self.lang_selected = match &al {
                    Some(c) => find_lang(&langs, c.as_str()),
                    None => None,
                };
                self.active_lang = al;
                self.languages = langs;
                self.connected = true;
                self.status = None;
            },
            Err(e) => {
                self.status = Some(concat("Failed to open dictionary: ", e.as_str()));
            },
        }
        assert(self@ =~= spec_finish_open(
            old(self)@,
            code@,
            match outcome {
                Ok(l) => Ok(l@),
                Err(e) => Err(e@),
            },
        ));
    }

    /// Take in the outcome of `Effect::Lookup { word, .. }`: the entries
    /// found, or the message of the error.
    pub fn finish_lookup(&mut self, word: &str, outcome: Result<Vec<Entry>, String>)
        ensures
            final(self)@ == spec_finish_lookup(
                old(self)@,
                word@,
                match outcome {
                    Ok(r) => Ok(r@),
                    Err(e) => Err(e@),
                },
            ),
    {
        match outcome {
            Ok(r) => {
                if r.len() == 0 {
                    self.results = Vec::new();
                    let m1 = concat("No results for \u{201C}", word);
                    self.status = Some(concat(m1.as_str(), "\u{201D}"));
                } else {
                    self.results = r;
                    self.status = None;
                }
            },
            Err(e) => {
                self.results = Vec::new();
                self.status = Some(concat("Lookup error: ", e.as_str()));
            },
        }
        assert(self@ =~= spec_finish_lookup(
            old(self)@,
            word@,
            match outcome {
                Ok(r) => Ok(r@),
                Err(e) => Err(e@),
            },
        ));
    }

    /// Take in the outcome of `Effect::Suggest`: the matching words, the
    /// first of them highlighted (in the word search too, where it is open).
    pub fn set_suggestions(&mut self, words: Vec<String>)
        ensures
            final(self)@ == spec_set_suggestions(old(self)@, words@.map_values(|s: String| s@)),
    {
        self.suggestions = words;
        self.selected_suggestion = 0;
        if self.overlay == Some(Overlay::Words) {
            self.palette_selected = 0;
        }
        assert(self@ =~= spec_set_suggestions(old(self)@, words@.map_values(|s: String| s@)));
    }

    /// Take in the outcome of `Effect::Rescan`: the file names of the data
    /// directory.
    pub fn rescan(&mut self, names: &Vec<String>)
        ensures
            spec_scanned(names@, final(self)@.installed),
            final(self)@ == (AppModel { installed: final(self)@.installed, ..old(self)@ }),
    {
        self.library.rescan(names);
        assert(self@ =~= (AppModel { installed: self@.installed, ..old(self)@ }));
    }
}

} // verus!
