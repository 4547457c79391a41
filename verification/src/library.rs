//! Runtime view of what's installed on disk, plus the persisted user selection
//! (active edition + active headword language).
//!
//! The directory listing and the settings file are read and written by the
//! caller; this module decides what they mean.
use vstd::prelude::*;
use vstd::multiset::Multiset;
use vstd::relations::sorted_by;

use crate::catalog::{edition, spec_edition, Edition};
use crate::text::{
    lemma_str_le_connected, lemma_str_le_transitive, spec_str_le, str_eq, str_le,
};

verus! {

broadcast use vstd::seq_lib::group_to_multiset_ensures;

/// Persisted user selection.
#[derive(Debug, Clone)]
pub struct Settings {
    /// Code of the active edition, if any (e.g. "en").
    pub active_edition: Option<String>,
    /// Active headword language within the active edition (e.g. "en").
    pub active_lang: Option<String>,
}

impl Default for Settings {
    fn default() -> (r: Settings)
        ensures
            r.active_edition is None,
            r.active_lang is None,
    {
        Settings { active_edition: None, active_lang: None }
    }
}

/// Which catalog editions are currently installed (have a DB on disk) plus the
/// persisted selection.
#[derive(Debug)]
pub struct Library {
    /// Edition codes present on disk, sorted.
    installed: Vec<String>,
    settings: Settings,
}

/// The code of the edition whose database file is called `name`: `name` is
/// `{code}.db` for a catalog edition's code. (A file name has extension
/// `db` and a stem that is an edition code exactly when this holds: codes
/// hold no dot.)
pub open spec fn spec_db_stem(name: Seq<char>) -> Option<Seq<char>> {
    let n = name.len();
    if n >= 3 && name[n - 3] == '.' && name[n - 2] == 'd' && name[n - 1] == 'b' && spec_edition(
        name.take(n - 3),
    ) is Some {
        Some(name.take(n - 3))
    } else {
        None
    }
}

/// The lexicographic order of `String`s, as a relation on their characters.
pub open spec fn spec_le() -> spec_fn(Seq<char>, Seq<char>) -> bool {
    |a: Seq<char>, b: Seq<char>| spec_str_le(a, b)
}

/// The edition codes whose database files `names` list.
pub open spec fn spec_stems(names: Seq<String>) -> Seq<Seq<char>> {
    names.map_values(|s: String| s@).filter_map(|n: Seq<char>| spec_db_stem(n))
}

/// `installed` is what scanning a directory whose files are `names` gives:
/// the stems of the edition database files, sorted.
pub open spec fn spec_scanned(names: Seq<String>, installed: Seq<Seq<char>>) -> bool {
    &&& sorted_by(installed, spec_le())
    &&& installed.to_multiset() == spec_stems(names).to_multiset()
}

/// The active edition that `settings` select, resolved against the catalog.
pub open spec fn spec_active_edition(settings: Settings) -> Option<Edition> {
    match settings.active_edition {
        Some(c) => spec_edition(c@),
        None => None,
    }
}

/// A code that scanning a directory gives is a catalog edition's code.
proof fn lemma_scanned_codes_are_editions(names: Seq<String>, installed: Seq<Seq<char>>)
    requires
        spec_scanned(names, installed),
    ensures
        forall|k: int| 0 <= k < installed.len() ==> (#[trigger] spec_edition(installed[k])) is Some,
{
    assert forall|k: int| 0 <= k < installed.len() implies (#[trigger] spec_edition(installed[k])) is Some by {
        let c = installed[k];
        assert(installed.contains(c));
        assert(installed.to_multiset().count(c) > 0);
        assert(spec_stems(names).contains(c));
        let views = names.map_values(|s: String| s@);
        views.lemma_filter_map_contains(|n: Seq<char>| spec_db_stem(n), c);
    }
}

/// Two file names with the same edition stem are the same name.
proof fn lemma_db_stem_injective(a: Seq<char>, b: Seq<char>)
    requires
        spec_db_stem(a) is Some,
        spec_db_stem(a) == spec_db_stem(b),
    ensures
        a == b,
{
    let st = spec_db_stem(a).unwrap();
    assert(a =~= st + a.skip(a.len() - 3));
    assert(b =~= st + b.skip(b.len() - 3));
    assert(a.skip(a.len() - 3) =~= b.skip(b.len() - 3));
}

/// Distinct file names have distinct edition stems.
proof fn lemma_stems_distinct(views: Seq<Seq<char>>)
    requires
        views.no_duplicates(),
    ensures
        views.filter_map(|n: Seq<char>| spec_db_stem(n)).no_duplicates(),
    decreases views.len(),
{
    let f = |n: Seq<char>| spec_db_stem(n);
    if views.len() > 0 {
        let rest = views.drop_last();
        let last = views.last();
        assert(rest.no_duplicates());
        lemma_stems_distinct(rest);
        let fr = rest.filter_map(f);
        if f(last) is Some {
            let st = f(last).unwrap();
            if fr.contains(st) {
                rest.lemma_filter_map_contains(f, st);
                let t = choose|t: Seq<char>| #[trigger] rest.contains(t) && f(t) == Some(st);
                lemma_db_stem_injective(last, t);
                let j = choose|j: int| 0 <= j < rest.len() && rest[j] == t;
                assert(views[j] == views[views.len() - 1]);
            }
            assert(views.filter_map(f) == fr + seq![st]);
            assert forall|i: int, j: int|
                0 <= i < fr.len() + 1 && 0 <= j < fr.len() + 1 && i != j implies (fr + seq![st])[i]
                != (fr + seq![st])[j] by {
                if i == fr.len() {
                    assert(fr.contains(fr[j]));
                } else if j == fr.len() {
                    assert(fr.contains(fr[i]));
                }
            }
        } else {
            assert(views.filter_map(f) == fr);
        }
    }
}

/// Scanning a directory whose file names are distinct gives each code once.
proof fn lemma_scanned_distinct(names: Seq<String>, installed: Seq<Seq<char>>)
    requires
        spec_scanned(names, installed),
        names.map_values(|s: String| s@).no_duplicates(),
    ensures
        installed.no_duplicates(),
{
    broadcast use vstd::multiset::group_multiset_axioms;

    lemma_stems_distinct(names.map_values(|s: String| s@));
    spec_stems(names).lemma_multiset_has_no_duplicates();
    installed.lemma_multiset_has_no_duplicates_conv();
}

/// The stem of `name` if it is an edition's database file.
fn db_stem(name: &str) -> (r: Option<&str>)
    ensures
        match r {
            Some(s) => spec_db_stem(name@) == Some(s@),
            None => spec_db_stem(name@) is None,
        },
{
    let n = name.unicode_len();
    if n >= 3 && name.get_char(n - 3) == '.' && name.get_char(n - 2) == 'd' && name.get_char(n - 1)
        == 'b' {
        let stem = name.substring_char(0, n - 3);
        assert(stem@ =~= name@.take(n - 3));
        if edition(stem).is_some() {
            return Some(stem);
        }
    }
    None
}

proof fn lemma_insert_multiset<A>(s: Seq<A>, p: int, x: A)
    requires
        0 <= p <= s.len(),
    ensures
        s.insert(p, x).to_multiset() == s.to_multiset().insert(x),
{
    broadcast use vstd::multiset::group_multiset_axioms;

    let a = s.subrange(0, p);
    let b = s.subrange(p, s.len() as int);
    vstd::seq_lib::lemma_multiset_commutative(a.push(x), b);
    vstd::seq_lib::lemma_multiset_commutative(a, b);
    assert(s =~= a + b);
    assert(s.insert(p, x).to_multiset() =~= s.to_multiset().insert(x));
}

/// Inserts `x` into the sorted `v` after every item that sorts before or
/// equal to it.
fn insert_sorted(v: &mut Vec<String>, x: String)
    requires
        sorted_by(old(v)@.map_values(|s: String| s@), spec_le()),
    ensures
        sorted_by(final(v)@.map_values(|s: String| s@), spec_le()),
        final(v)@.map_values(|s: String| s@).to_multiset() == old(v)@.map_values(
            |s: String| s@,
        ).to_multiset().insert(x@),
{
    let ghost views = v@.map_values(|s: String| s@);
    let mut p: usize = 0;
    while p < v.len() && str_le(v[p].as_str(), x.as_str())
        invariant
            p <= v.len(),
            views == v@.map_values(|s: String| s@),
            forall|k: int| 0 <= k < p ==> spec_str_le(#[trigger] views[k], x@),
        decreases v.len() - p,
    {
        p = p + 1;
    }
    proof {
        if p < v.len() {
            lemma_str_le_connected(views[p as int], x@);
        }
    }
    let ghost xv = x@;
    v.insert(p, x);
    let ghost nv = v@.map_values(|s: String| s@);
    assert(nv =~= views.insert(p as int, xv));
    proof {
        lemma_insert_multiset(views, p as int, xv);
        assert forall|i: int, j: int| 0 <= i < j < nv.len() implies (spec_le())(nv[i], nv[j]) by {
            if j < p {
            } else if j == p {
            } else if i < p {
                // nv[i] <= x <= views[p] <= nv[j]
                lemma_str_le_transitive(nv[i], xv, views[p as int]);
                if j - 1 > p {
                    assert((spec_le())(views[p as int], views[j - 1]));
                    lemma_str_le_transitive(nv[i], views[p as int], nv[j]);
                }
            } else if i == p {
                if j - 1 > p {
                    assert((spec_le())(views[p as int], views[j - 1]));
                    lemma_str_le_transitive(xv, views[p as int], nv[j]);
                }
            } else {
            }
        }
    }
}

/// Find the database files among the file names `names` of the data
/// directory and return their edition codes, sorted.
fn scan_installed(names: &Vec<String>) -> (r: Vec<String>)
    ensures
        spec_scanned(names@, r@.map_values(|s: String| s@)),
{
    let mut out: Vec<String> = Vec::new();
    let mut i: usize = 0;
    while i < names.len()
        invariant
            i <= names.len(),
            sorted_by(out@.map_values(|s: String| s@), spec_le()),
            out@.map_values(|s: String| s@).to_multiset() == spec_stems(
                names@.take(i as int),
            ).to_multiset(),
        decreases names.len() - i,
    {
        let ghost before = spec_stems(names@.take(i as int));
        assert(names@.take(i + 1).map_values(|s: String| s@).drop_last() =~= names@.take(
            i as int,
        ).map_values(|s: String| s@));
        match db_stem(names[i].as_str()) {
            Some(stem) => {
                assert(spec_stems(names@.take(i + 1)) =~= before + seq![stem@]);
                proof {
                    vstd::seq_lib::lemma_multiset_commutative(before, seq![stem@]);
                    assert(seq![stem@].to_multiset() =~= Multiset::empty().insert(stem@)) by {
                        assert(seq![stem@] =~= Seq::<Seq<char>>::empty().push(stem@));
                    }
                    broadcast use vstd::multiset::group_multiset_axioms;

                    assert(before.to_multiset().add(Multiset::empty().insert(stem@))
                        =~= before.to_multiset().insert(stem@));
                }
                insert_sorted(&mut out, String::from_str(stem));
            },
            None => {
                assert(spec_stems(names@.take(i + 1)) =~= before);
            },
        }
        i = i + 1;
    }
    assert(names@.take(names.len() as int) =~= names@);
    out
}

/// The active edition reads back what was selected: after
/// `set_active_edition(code)`, `active_edition()` is the catalog edition of
/// `code`; after `clear_active_edition()` it is none.
pub proof fn law_active_edition_reads_back(settings: Settings, code: Seq<char>)
    ensures
        settings.active_edition matches Some(c) && c@ == code ==> spec_active_edition(settings)
            == spec_edition(code),
        settings.active_edition is None ==> spec_active_edition(settings) is None,
{
}

impl Clone for Library {
    /// A copy with the same installed codes and the same selection.
    fn clone(&self) -> (r: Self)
        ensures
            r.installed_codes() == self.installed_codes(),
            r.spec_settings() == self.spec_settings(),
    {
        proof {
            use_type_invariant(self);
        }
        let installed = self.installed.clone();
        assert(installed@ =~= self.installed@);
        let settings = Settings {
            active_edition: self.settings.active_edition.clone(),
            active_lang: self.settings.active_lang.clone(),
        };
        Library { installed, settings }
    }
}

impl Library {
    /// The installed edition codes, sorted.
    pub closed spec fn installed_codes(self) -> Seq<Seq<char>> {
        self.installed@.map_values(|s: String| s@)
    }

    /// The installed codes are sorted and each is a catalog edition's code.
    #[verifier::type_invariant]
    spec fn codes_sorted_in_catalog(self) -> bool {
        &&& sorted_by(self.installed_codes(), spec_le())
        &&& forall|k: int|
            0 <= k < self.installed_codes().len() ==> (#[trigger] spec_edition(
                self.installed_codes()[k],
            )) is Some
    }

    /// The persisted selection.
    pub closed spec fn spec_settings(self) -> Settings {
        self.settings
    }

    /// The persisted selection, for the caller to save.
    pub fn settings(&self) -> (r: &Settings)
        ensures
            *r == self.spec_settings(),
    {
        &self.settings
    }

    /// The library for a data directory whose files are named `names`, with
    /// the persisted `settings`.
    pub fn load(names: &Vec<String>, settings: Settings) -> (r: Library)
        ensures
            spec_scanned(names@, r.installed_codes()),
            names@.map_values(|s: String| s@).no_duplicates() ==> r.installed_codes().no_duplicates(),
            r.spec_settings() == settings,
    {
        let installed = scan_installed(names);
        proof {
            lemma_scanned_codes_are_editions(names@, installed@.map_values(|s: String| s@));
            if names@.map_values(|s: String| s@).no_duplicates() {
                lemma_scanned_distinct(names@, installed@.map_values(|s: String| s@));
            }
        }
        Library { installed, settings }
    }

    /// Re-scan installed editions (call after an install/uninstall) from the
    /// file names `names` of the data directory.
    pub fn rescan(&mut self, names: &Vec<String>)
        ensures
            spec_scanned(names@, final(self).installed_codes()),
            names@.map_values(|s: String| s@).no_duplicates() ==> final(self).installed_codes().no_duplicates(),
            final(self).spec_settings() == old(self).spec_settings(),
    {
        let installed = scan_installed(names);
        proof {
            lemma_scanned_codes_are_editions(names@, installed@.map_values(|s: String| s@));
            if names@.map_values(|s: String| s@).no_duplicates() {
                lemma_scanned_distinct(names@, installed@.map_values(|s: String| s@));
            }
        }
        self.installed = installed;
    }

    pub fn is_installed(&self, code: &str) -> (r: bool)
        ensures
            r == self.installed_codes().contains(code@),
            r ==> spec_edition(code@) is Some,
    {
        proof {
            use_type_invariant(self);
        }
        let mut i: usize = 0;
        while i < self.installed.len()
            invariant
                i <= self.installed.len(),
                forall|k: int| 0 <= k < i ==> self.installed_codes()[k] != code@,
                forall|k: int|
                    0 <= k < self.installed_codes().len() ==> (#[trigger] spec_edition(
                        self.installed_codes()[k],
                    )) is Some,
            decreases self.installed.len() - i,
        {
            if str_eq(self.installed[i].as_str(), code) {
                assert(self.installed_codes()[i as int] == code@);
                assert(spec_edition(self.installed_codes()[i as int]) is Some);
                return true;
            }
            i = i + 1;
        }
        false
    }

    /// Installed editions, resolved against the catalog: one for each
    /// installed code, in the same order.
    pub fn installed_editions(&self) -> (r: Vec<Edition>)
        ensures
            r@ == self.installed_codes().filter_map(|c: Seq<char>| spec_edition(c)),
            r@.len() == self.installed_codes().len(),
            forall|k: int|
                0 <= k < r@.len() ==> Some(#[trigger] r@[k]) == spec_edition(
                    self.installed_codes()[k],
                ),
    {
        proof {
            use_type_invariant(self);
        }
        let mut r: Vec<Edition> = Vec::new();
        let mut i: usize = 0;
        while i < self.installed.len()
            invariant
                i <= self.installed.len(),
                r@ == self.installed_codes().take(i as int).filter_map(
                    |c: Seq<char>| spec_edition(c),
                ),
                r@.len() == i,
                forall|k: int|
                    0 <= k < i ==> Some(#[trigger] r@[k]) == spec_edition(self.installed_codes()[k]),
                forall|k: int|
                    0 <= k < self.installed_codes().len() ==> (#[trigger] spec_edition(
                        self.installed_codes()[k],
                    )) is Some,
            decreases self.installed.len() - i,
        {
            assert(self.installed_codes().take(i + 1).drop_last() =~= self.installed_codes().take(
                i as int,
            ));
            assert(spec_edition(self.installed_codes()[i as int]) is Some);
            match edition(self.installed[i].as_str()) {
                Some(e) => r.push(e),
                None => {},
            }
            i = i + 1;
        }
        assert(self.installed_codes().take(self.installed.len() as int)
            =~= self.installed_codes());
        r
    }

    pub fn active_edition(&self) -> (r: Option<Edition>)
        ensures
            r == spec_active_edition(self.spec_settings()),
    {
        match &self.settings.active_edition {
            Some(c) => edition(c.as_str()),
            None => None,
        }
    }

    pub fn active_lang(&self) -> (r: Option<&str>)
        ensures
            match r {
                Some(l) => self.spec_settings().active_lang is Some && l@
                    == self.spec_settings().active_lang.unwrap()@,
                None => self.spec_settings().active_lang is None,
            },
    {
        match &self.settings.active_lang {
            Some(l) => Some(l.as_str()),
            None => None,
        }
    }

    /// Select `code` as the active edition. The caller persists `settings`.
    pub fn set_active_edition(&mut self, code: &str)
        ensures
            final(self).spec_settings().active_edition is Some,
            final(self).spec_settings().active_edition.unwrap()@ == code@,
            final(self).spec_settings().active_lang == old(self).spec_settings().active_lang,
            final(self).installed_codes() == old(self).installed_codes(),
    {
        proof {
            use_type_invariant(&*self);
        }
        self.settings.active_edition = Some(String::from_str(code));
    }

    /// Select `code` as the active headword language. The caller persists
    /// `settings`.
    pub fn set_active_lang(&mut self, code: &str)
        ensures
            final(self).spec_settings().active_lang is Some,
            final(self).spec_settings().active_lang.unwrap()@ == code@,
            final(self).spec_settings().active_edition == old(self).spec_settings().active_edition,
            final(self).installed_codes() == old(self).installed_codes(),
    {
        proof {
            use_type_invariant(&*self);
        }
        self.settings.active_lang = Some(String::from_str(code));
    }

    /// Clear the active edition (e.g. after uninstalling it), and with it the
    /// active language. The caller persists `settings`.
    pub fn clear_active_edition(&mut self)
        ensures
            final(self).spec_settings().active_edition is None,
            final(self).spec_settings().active_lang is None,
            final(self).installed_codes() == old(self).installed_codes(),
    {
        proof {
            use_type_invariant(&*self);
        }
        self.settings.active_edition = None;
        self.settings.active_lang = None;
    }
}

} // verus!
