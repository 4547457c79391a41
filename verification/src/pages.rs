//! What the pages of the window show of the state, and which keys map to
//! which messages.
use vstd::prelude::*;

use crate::catalog::{editions, spec_editions, Edition};
use crate::state::{
    installs_view, law_toggle_opens_or_closes, spec_model_edition, spec_update, AppModel, AppState,
    InstallState, Message, Overlay, Screen,
};
use crate::text::{concat, str_eq};

verus! {

/// One edition of the settings page: whether it is installed, whether it is
/// the active one, and the line under its name.
#[derive(Debug, Clone)]
pub struct EditionRow {
    pub edition: Edition,
    pub installed: bool,
    pub active: bool,
    /// "Installed", or the download size followed by " download".
    pub subtitle: String,
}

/// The line under an edition's name on the settings page.
pub open spec fn spec_subtitle(e: Edition, installed: bool) -> Seq<char> {
    if installed {
        "Installed"@
    } else {
        e.size@ + " download"@
    }
}

/// The keys the window reacts to.
#[derive(Debug, Clone, Copy, PartialEq, Eq, Structural)]
pub enum NamedKey {
    Escape,
    ArrowUp,
    ArrowDown,
    Enter,
    Backspace,
    Other,
}

/// A pressed key: a named key, or the text a character key (the space bar
/// among them) produces.
#[derive(Debug, Clone)]
pub enum KeyPress {
    Named(NamedKey),
    Character(String),
    Unidentified,
}

/// The message for a key press. With the command modifier (Ctrl, or Cmd on
/// macOS), `,` opens the settings, `K` toggles the command palette and `P` the
/// word search (either case). Without it, while an overlay is open, the keys
/// drive the overlay: Escape closes it, the arrows move its highlight, Enter
/// runs the highlighted item, Backspace deletes from its query and characters
/// are typed into it; while none is open, Escape goes back to
/// the search page and the arrows move the highlighted suggestion.
pub open spec fn spec_key_message(key: KeyPress, command: bool, overlay_open: bool) -> Option<Message> {
    if command {
        match key {
            KeyPress::Character(c) => if c@ == ","@ {
                Some(Message::Navigate(Screen::Settings))
            } else if c@ == "k"@ || c@ == "K"@ {
                Some(Message::TogglePalette)
            } else if c@ == "p"@ || c@ == "P"@ {
                Some(Message::ToggleWordSearch)
            } else {
                None
            },
            _ => None,
        }
    } else if overlay_open {
        match key {
            KeyPress::Named(NamedKey::Escape) => Some(Message::ClosePalette),
            KeyPress::Named(NamedKey::ArrowUp) => Some(Message::PaletteUp),
            KeyPress::Named(NamedKey::ArrowDown) => Some(Message::PaletteDown),
            KeyPress::Named(NamedKey::Enter) => Some(Message::PaletteRun),
            KeyPress::Named(NamedKey::Backspace) => Some(Message::PaletteBackspace),
            KeyPress::Character(c) => Some(Message::PaletteType(c)),
            _ => None,
        }
    } else {
        match key {
            KeyPress::Named(NamedKey::Escape) => Some(Message::Navigate(Screen::Search)),
            KeyPress::Named(NamedKey::ArrowUp) => Some(Message::SuggestionUp),
            KeyPress::Named(NamedKey::ArrowDown) => Some(Message::SuggestionDown),
            _ => None,
        }
    }
}

/// The message that a key press sends, if any, with or without the command
/// modifier and while an overlay is open or not.
pub fn key_message(key: &KeyPress, command: bool, overlay_open: bool) -> (r: Option<Message>)
    ensures
        r == spec_key_message(*key, command, overlay_open),
{
    if command {
        match key {
            KeyPress::Character(c) => {
                let s = c.as_str();
                if str_eq(s, ",") {
                    Some(Message::Navigate(Screen::Settings))
                } else if str_eq(s, "k") || str_eq(s, "K") {
                    Some(Message::TogglePalette)
                } else if str_eq(s, "p") || str_eq(s, "P") {
                    Some(Message::ToggleWordSearch)
                } else {
                    None
                }
            },
            _ => None,
        }
    } else if overlay_open {
        match key {
            KeyPress::Named(NamedKey::Escape) => Some(Message::ClosePalette),
            KeyPress::Named(NamedKey::ArrowUp) => Some(Message::PaletteUp),
            KeyPress::Named(NamedKey::ArrowDown) => Some(Message::PaletteDown),
            KeyPress::Named(NamedKey::Enter) => Some(Message::PaletteRun),
            KeyPress::Named(NamedKey::Backspace) => Some(Message::PaletteBackspace),
            KeyPress::Character(c) => Some(Message::PaletteType(c.clone())),
            _ => None,
        }
    } else {
        match key {
            KeyPress::Named(NamedKey::Escape) => Some(Message::Navigate(Screen::Search)),
            KeyPress::Named(NamedKey::ArrowUp) => Some(Message::SuggestionUp),
            KeyPress::Named(NamedKey::ArrowDown) => Some(Message::SuggestionDown),
            _ => None,
        }
    }
}

/// Ctrl+K (or Cmd+K) toggles the command palette and Ctrl+P the word search,
/// whether an overlay is open or not: the message they send opens the
/// overlay where it is closed and closes it where it is open.
pub proof fn law_shortcuts_toggle_overlays(m: AppModel, k: KeyPress, p: KeyPress, open: bool)
    requires
        k matches KeyPress::Character(c) && (c@ == "k"@ || c@ == "K"@),
        p matches KeyPress::Character(c) && (c@ == "p"@ || c@ == "P"@),
    ensures
        spec_key_message(k, true, open) == Some(Message::TogglePalette),
        spec_key_message(p, true, open) == Some(Message::ToggleWordSearch),
        spec_update(m, Message::TogglePalette).0.overlay == if m.overlay == Some(Overlay::Commands) {
            None
        } else {
            Some(Overlay::Commands)
        },
        spec_update(m, Message::ToggleWordSearch).0.overlay == if m.overlay == Some(Overlay::Words) {
            None
        } else {
            Some(Overlay::Words)
        },
{
    reveal_strlit(",");
    reveal_strlit("k");
    reveal_strlit("K");
    reveal_strlit("p");
    reveal_strlit("P");
    assert(","@[0] != "k"@[0] && ","@[0] != "K"@[0]);
    assert(","@[0] != "p"@[0] && ","@[0] != "P"@[0]);
    assert("k"@[0] != "p"@[0] && "k"@[0] != "P"@[0]);
    assert("K"@[0] != "p"@[0] && "K"@[0] != "P"@[0]);
    law_toggle_opens_or_closes(m);
}

proof fn lemma_installs_view_last(v: Seq<(String, InstallState)>, j: int, code: Seq<char>)
    requires
        0 <= j <= v.len(),
        forall|k: int| j <= k < v.len() ==> (#[trigger] v[k]).0@ != code,
    ensures
        installs_view(v).contains_key(code) == installs_view(v.take(j)).contains_key(code),
        installs_view(v).contains_key(code) ==> installs_view(v)[code] == installs_view(
            v.take(j),
        )[code],
    decreases v.len() - j,
{
    if j == v.len() {
        assert(v.take(j) =~= v);
    } else {
        lemma_installs_view_last(v.drop_last(), j, code);
        assert(v.drop_last().take(j) =~= v.take(j));
        assert(v.last() == v[v.len() - 1]);
    }
}

impl AppState {
    /// The state of the in-flight install of `code`, if there is one.
    pub fn install_state(&self, code: &str) -> (r: Option<&InstallState>)
        ensures
            match r {
                Some(st) => self@.installs.contains_key(code@) && *st == self@.installs[code@],
                None => !self@.installs.contains_key(code@),
            },
    {
        let ghost v = self.installs@;
        let mut j: usize = self.installs.len();
        while j > 0
            invariant
                v == self.installs@,
                j <= v.len(),
                forall|k: int| j <= k < v.len() ==> (#[trigger] v[k]).0@ != code@,
            decreases j,
        {
            if str_eq(self.installs[j - 1].0.as_str(), code) {
                proof {
                    lemma_installs_view_last(v, j as int, code@);
                    assert(v.take(j as int).drop_last() =~= v.take(j - 1));
                    assert(v.take(j as int).last() == v[j - 1]);
                }
                return Some(&self.installs[j - 1].1);
            }
            j = j - 1;
        }
        proof {
            lemma_installs_view_last(v, 0, code@);
            assert(v.take(0) =~= Seq::<(String, InstallState)>::empty());
        }
        None
    }

    /// The editions of the settings page, in catalog order.
    pub fn edition_rows(&self) -> (r: Vec<EditionRow>)
        ensures
            r@.len() == spec_editions().len(),
            forall|i: int|
                0 <= i < r@.len() ==> {
                    let e = spec_editions()[i];
                    &&& (#[trigger] r@[i]).edition == e
                    &&& r@[i].installed == self@.installed.contains(e.code@)
                    &&& r@[i].active == (spec_model_edition(self@) matches Some(a) && a.code@
                        == e.code@)
                    &&& r@[i].subtitle@ == spec_subtitle(e, r@[i].installed)
                },
    {
        let all = editions();
        let active = self.library.active_edition();
        let mut r: Vec<EditionRow> = Vec::new();
        let mut i: usize = 0;
        while i < all.len()
            invariant
                all@ == spec_editions(),
                active == spec_model_edition(self@),
                i <= all.len(),
                r@.len() == i,
                forall|k: int|
                    0 <= k < i ==> {
                        let e = spec_editions()[k];
                        &&& (#[trigger] r@[k]).edition == e
                        &&& r@[k].installed == self@.installed.contains(e.code@)
                        &&& r@[k].active == (spec_model_edition(self@) matches Some(a) && a.code@
                            == e.code@)
                        &&& r@[k].subtitle@ == spec_subtitle(e, r@[k].installed)
                    },
            decreases all.len() - i,
        {
            let e = all[i];
            let is_active = match active {
                Some(a) => str_eq(a.code, e.code),
                None => false,
            };
            let installed = self.library.is_installed(e.code);
            let subtitle = if installed {
                String::from_str("Installed")
            } else {
                concat(e.size, " download")
            };
            r.push(EditionRow { edition: e, installed, active: is_active, subtitle });
            i = i + 1;
        }
        r
    }

    /// What the result page says where it has no entries to show: the status
    /// message, or that nothing matched. `None` where there are entries.
    pub fn result_hint(&self) -> (r: Option<String>)
        ensures
            self@.results.len() > 0 ==> r is None,
            self@.results.len() == 0 ==> r is Some && r.unwrap()@ == match self@.status {
                Some(st) => st,
                None => "No matching words found"@,
            },
    {
        if self.results.len() > 0 {
            return None;
        }
        match &self.status {
            Some(st) => Some(st.clone()),
            None => Some(String::from_str("No matching words found")),
        }
    }

    /// The language switcher is only worth showing when the open dictionary
    /// has more than one headword language to choose between.
    pub fn shows_language_switcher(&self) -> (r: bool)
        ensures
            r == (self@.languages.len() > 1),
    {
        self.languages.len() > 1
    }
}

} // verus!
