//! Dictionary data model.
//!
//! Fields are a subset of the kaikki.org (Wiktextract) JSONL schema. The same
//! structs are stored as JSON in the SQLite `data` column, so loading from
//! the DB gives back exactly these types.
//!
//! `EntryOutline` is what a result page shows of an entry: headword, part of
//! speech, pronunciations, numbered senses with examples and related words,
//! and etymology.
use vstd::prelude::*;

use crate::text::{join, spec_join, str_eq};

verus! {

/// One dictionary entry (a word + part-of-speech combination).
#[derive(Debug, Clone)]
pub struct Entry {
    pub word: String,
    /// A Wiktionary edition publishes hundreds of headword languages; we keep
    /// this so a single edition DB can be filtered by language at query time.
    pub lang_code: String,
    pub pos: String,
    pub etymology_text: Option<String>,
    pub senses: Vec<Sense>,
    pub sounds: Vec<Sound>,
    /// Grammatical tags for the headword as a whole, e.g. `"masculine"` for a
    /// German noun.
    pub tags: Vec<String>,
    /// Inflected forms (a declension/conjugation table), when the source
    /// records one.
    pub forms: Vec<Form>,
}

/// A single sense (meaning) of an entry.
#[derive(Debug, Clone)]
pub struct Sense {
    pub glosses: Vec<String>,
    pub examples: Vec<Example>,
    /// kaikki `links`: each link is `[display, target]` (target may be empty).
    pub links: Vec<Vec<String>>,
}

/// A usage example for a sense.
#[derive(Debug, Clone)]
pub struct Example {
    pub text: String,
}

/// Pronunciation information; we only keep IPA.
#[derive(Debug, Clone)]
pub struct Sound {
    pub ipa: Option<String>,
}

/// One inflected form — a single row of a declension or conjugation table.
#[derive(Debug, Clone)]
pub struct Form {
    pub form: String,
    pub tags: Vec<String>,
    /// The definite article accompanying this form, when the language has one.
    pub article: Option<String>,
}

/// `tags` holds the tag `t`.
pub open spec fn spec_has_tag(tags: Seq<String>, t: Seq<char>) -> bool {
    exists|i: int| 0 <= i < tags.len() && #[trigger] tags[i]@ == t
}

/// The form is the nominative singular.
pub open spec fn spec_is_nominative_singular(f: Form) -> bool {
    spec_has_tag(f.tags@, "nominative"@) && spec_has_tag(f.tags@, "singular"@)
}

/// The first nominative-singular form of `forms`.
pub open spec fn spec_first_nominative_singular(forms: Seq<Form>) -> Option<Form>
    decreases forms.len(),
{
    if forms.len() == 0 {
        None
    } else if spec_is_nominative_singular(forms[0]) {
        Some(forms[0])
    } else {
        spec_first_nominative_singular(forms.drop_first())
    }
}

/// The article of the first nominative-singular form, if that form has one.
pub open spec fn spec_article(e: Entry) -> Option<Seq<char>> {
    match spec_first_nominative_singular(e.forms@) {
        Some(f) => match f.article {
            Some(a) => Some(a@),
            None => None,
        },
        None => None,
    }
}

/// The IPA transcriptions that `sounds` record, in order.
pub open spec fn spec_ipas(sounds: Seq<Sound>) -> Seq<Seq<char>>
    decreases sounds.len(),
{
    if sounds.len() == 0 {
        Seq::empty()
    } else {
        let rest = spec_ipas(sounds.drop_last());
        match sounds.last().ipa {
            Some(s) => rest.push(s@),
            None => rest,
        }
    }
}

/// The texts of the non-empty examples, in order.
pub open spec fn spec_example_texts(examples: Seq<Example>) -> Seq<Seq<char>>
    decreases examples.len(),
{
    if examples.len() == 0 {
        Seq::empty()
    } else {
        let rest = spec_example_texts(examples.drop_last());
        if examples.last().text@.len() > 0 {
            rest.push(examples.last().text@)
        } else {
            rest
        }
    }
}

/// A sense's examples in its outline are the texts of exactly its non-empty
/// examples, all of them, in their order.
pub proof fn law_outline_keeps_every_nonempty_example(examples: Seq<Example>)
    ensures
        spec_example_texts(examples) == examples.filter(|e: Example| e.text@.len() > 0).map_values(
            |e: Example| e.text@,
        ),
    decreases examples.len(),
{
    reveal(Seq::filter);
    if examples.len() > 0 {
        law_outline_keeps_every_nonempty_example(examples.drop_last());
        let f = examples.drop_last().filter(|e: Example| e.text@.len() > 0);
        if examples.last().text@.len() > 0 {
            assert(f.push(examples.last()).map_values(|e: Example| e.text@) =~= f.map_values(
                |e: Example| e.text@,
            ).push(examples.last().text@));
        }
    } else {
        assert(examples.filter(|e: Example| e.text@.len() > 0).map_values(|e: Example| e.text@)
            =~= Seq::<Seq<char>>::empty());
    }
}

/// The display words of the links, in order: the first item of each link,
/// where it exists and is not empty.
pub open spec fn spec_related(links: Seq<Vec<String>>) -> Seq<Seq<char>>
    decreases links.len(),
{
    if links.len() == 0 {
        Seq::empty()
    } else {
        let rest = spec_related(links.drop_last());
        let l = links.last()@;
        if l.len() > 0 && l[0]@.len() > 0 {
            rest.push(l[0]@)
        } else {
            rest
        }
    }
}

/// What a result page shows of one sense.
pub struct SenseOutline {
    /// Position among the senses that have glosses, from 1.
    pub number: usize,
    /// The glosses, separated by "; ".
    pub gloss_line: String,
    /// The non-empty example texts.
    pub examples: Vec<String>,
    /// The related words to link to.
    pub related: Vec<String>,
}

/// What a result page shows of one entry.
pub struct EntryOutline {
    pub headword: String,
    pub pos: String,
    /// The IPA transcriptions separated by three spaces, if there are any.
    pub ipa_line: Option<String>,
    /// The senses that have glosses, numbered from 1.
    pub senses: Vec<SenseOutline>,
    /// The etymology, if it is recorded and not empty.
    pub etymology: Option<String>,
}

/// Spec form of a sense outline: number, gloss line, examples, related words.
pub type SenseOutlineView = (nat, Seq<char>, Seq<Seq<char>>, Seq<Seq<char>>);

impl SenseOutline {
    pub open spec fn view(&self) -> SenseOutlineView {
        (
            self.number as nat,
            self.gloss_line@,
            self.examples@.map_values(|s: String| s@),
            self.related@.map_values(|s: String| s@),
        )
    }
}

/// The outline of one sense that has glosses, given its number.
pub open spec fn spec_sense_outline(s: Sense, number: nat) -> SenseOutlineView {
    (
        number,
        spec_join(s.glosses@.map_values(|g: String| g@), "; "@),
        spec_example_texts(s.examples@),
        spec_related(s.links@),
    )
}

/// The outlines of the senses that have glosses, numbered from 1, in order.
pub open spec fn spec_sense_outlines(senses: Seq<Sense>) -> Seq<SenseOutlineView>
    decreases senses.len(),
{
    if senses.len() == 0 {
        Seq::empty()
    } else {
        let rest = spec_sense_outlines(senses.drop_last());
        if senses.last().glosses@.len() > 0 {
            rest.push(spec_sense_outline(senses.last(), rest.len() + 1))
        } else {
            rest
        }
    }
}

proof fn lemma_sense_outlines_len(senses: Seq<Sense>)
    ensures
        spec_sense_outlines(senses).len() <= senses.len(),
    decreases senses.len(),
{
    if senses.len() > 0 {
        lemma_sense_outlines_len(senses.drop_last());
    }
}

/// The senses shown are numbered 1, 2, 3, ... in order.
pub proof fn law_senses_numbered_from_one(senses: Seq<Sense>)
    ensures
        forall|i: int|
            0 <= i < spec_sense_outlines(senses).len() ==> (#[trigger] spec_sense_outlines(senses)[i]).0
                == i + 1,
    decreases senses.len(),
{
    if senses.len() > 0 {
        law_senses_numbered_from_one(senses.drop_last());
        let rest = spec_sense_outlines(senses.drop_last());
        let all = spec_sense_outlines(senses);
        assert forall|i: int| 0 <= i < all.len() implies (#[trigger] all[i]).0 == i + 1 by {
            if i < rest.len() {
                assert(all[i] == rest[i]);
            }
        }
    }
}

/// Whether `tags` holds the tag `t`.
fn has_tag(tags: &Vec<String>, t: &str) -> (r: bool)
    ensures
        r == spec_has_tag(tags@, t@),
{
    let mut i: usize = 0;
    while i < tags.len()
        invariant
            i <= tags.len(),
            forall|k: int| 0 <= k < i ==> tags@[k]@ != t@,
        decreases tags.len() - i,
    {
        if str_eq(tags[i].as_str(), t) {
            return true;
        }
        i = i + 1;
    }
    false
}

/// Copies of the non-empty example texts.
fn example_texts(examples: &Vec<Example>) -> (r: Vec<String>)
    ensures
        r@.map_values(|s: String| s@) == spec_example_texts(examples@),
{
    let mut r: Vec<String> = Vec::new();
    let mut i: usize = 0;
    while i < examples.len()
        invariant
            i <= examples.len(),
            r@.map_values(|s: String| s@) == spec_example_texts(examples@.take(i as int)),
        decreases examples.len() - i,
    {
        assert(examples@.take(i + 1).drop_last() =~= examples@.take(i as int));
        let ghost before = r@;
        if examples[i].text.as_str().is_empty() == false {
            r.push(examples[i].text.clone());
            assert(r@.map_values(|s: String| s@) =~= before.map_values(|s: String| s@).push(
                examples@[i as int].text@,
            ));
        }
        i = i + 1;
    }
    assert(examples@.take(examples.len() as int) =~= examples@);
    r
}

/// Copies of the related words of the links.
fn related_words(links: &Vec<Vec<String>>) -> (r: Vec<String>)
    ensures
        r@.map_values(|s: String| s@) == spec_related(links@),
{
    let mut r: Vec<String> = Vec::new();
    let mut i: usize = 0;
    while i < links.len()
        invariant
            i <= links.len(),
            r@.map_values(|s: String| s@) == spec_related(links@.take(i as int)),
        decreases links.len() - i,
    {
        assert(links@.take(i + 1).drop_last() =~= links@.take(i as int));
        let ghost before = r@;
        let link = &links[i];
        if link.len() > 0 && !link[0].as_str().is_empty() {
            r.push(link[0].clone());
            assert(r@.map_values(|s: String| s@) =~= before.map_values(|s: String| s@).push(
                links@[i as int]@[0]@,
            ));
        }
        i = i + 1;
    }
    assert(links@.take(links.len() as int) =~= links@);
    r
}

impl Entry {
    /// The nominative-singular definite article for this headword, if the
    /// source data recorded one (e.g. German nouns: "der"/"die"/"das").
    pub fn article(&self) -> (r: Option<&str>)
        ensures
            match r {
                Some(a) => spec_article(*self) == Some(a@),
                None => spec_article(*self) is None,
            },
    {
        let mut i: usize = 0;
        assert(self.forms@.skip(0) =~= self.forms@);
        while i < self.forms.len()
            invariant
                i <= self.forms.len(),
                spec_first_nominative_singular(self.forms@) == spec_first_nominative_singular(
                    self.forms@.skip(i as int),
                ),
            decreases self.forms.len() - i,
        {
            assert(self.forms@.skip(i as int).drop_first() =~= self.forms@.skip(i + 1));
            let f = &self.forms[i];
            if has_tag(&f.tags, "nominative") && has_tag(&f.tags, "singular") {
                return match &f.article {
                    Some(a) => Some(a.as_str()),
                    None => None,
                };
            }
            i = i + 1;
        }
        None
    }

    /// The IPA transcriptions of the entry, in order.
    pub fn ipas(&self) -> (r: Vec<String>)
        ensures
            r@.map_values(|s: String| s@) == spec_ipas(self.sounds@),
    {
        let mut r: Vec<String> = Vec::new();
        let mut i: usize = 0;
        while i < self.sounds.len()
            invariant
                i <= self.sounds.len(),
                r@.map_values(|s: String| s@) == spec_ipas(self.sounds@.take(i as int)),
            decreases self.sounds.len() - i,
        {
            assert(self.sounds@.take(i + 1).drop_last() =~= self.sounds@.take(i as int));
            let ghost before = r@;
            match &self.sounds[i].ipa {
                Some(s) => {
                    r.push(s.clone());
                    assert(r@.map_values(|s: String| s@) =~= before.map_values(|s: String| s@).push(
                        s@,
                    ));
                },
                None => {},
            }
            i = i + 1;
        }
        assert(self.sounds@.take(self.sounds.len() as int) =~= self.sounds@);
        r
    }

    /// What a result page shows of this entry.
    pub fn outline(&self) -> (r: EntryOutline)
        ensures
            r.headword@ == self.word@,
            r.pos@ == self.pos@,
            match r.ipa_line {
                Some(l) => spec_ipas(self.sounds@).len() > 0 && l@ == spec_join(
                    spec_ipas(self.sounds@),
                    "   "@,
                ),
                None => spec_ipas(self.sounds@).len() == 0,
            },
            r.senses@.map_values(|s: SenseOutline| s.view()) == spec_sense_outlines(self.senses@),
            match r.etymology {
                Some(t) => self.etymology_text.is_some() && t@ == self.etymology_text.unwrap()@
                    && t@.len() > 0,
                None => self.etymology_text.is_none() || self.etymology_text.unwrap()@.len() == 0,
            },
    {
        let ipas = self.ipas();
        let ipa_line = if ipas.len() > 0 {
            Some(join(&ipas, "   "))
        } else {
            None
        };
        let mut senses: Vec<SenseOutline> = Vec::new();
        let mut i: usize = 0;
        while i < self.senses.len()
            invariant
                i <= self.senses.len(),
                senses@.map_values(|s: SenseOutline| s.view()) == spec_sense_outlines(
                    self.senses@.take(i as int),
                ),
            decreases self.senses.len() - i,
        {
            assert(self.senses@.take(i + 1).drop_last() =~= self.senses@.take(i as int));
            proof {
                lemma_sense_outlines_len(self.senses@.take(i as int));
            }
            let ghost before = senses@;
            let sense = &self.senses[i];
            if sense.glosses.len() > 0 {
                let number = senses.len() + 1;
                let outline = SenseOutline {
                    number,
                    gloss_line: join(&sense.glosses, "; "),
                    examples: example_texts(&sense.examples),
                    related: related_words(&sense.links),
                };
                senses.push(outline);
                assert(senses@.map_values(|s: SenseOutline| s.view()) =~= before.map_values(
                    |s: SenseOutline| s.view(),
                ).push(spec_sense_outline(self.senses@[i as int], (before.len() + 1) as nat)));
            }
            i = i + 1;
        }
        assert(self.senses@.take(self.senses.len() as int) =~= self.senses@);
        let etymology = match &self.etymology_text {
            Some(t) => if t.as_str().is_empty() {
                None
            } else {
                Some(t.clone())
            },
            None => None,
        };
        EntryOutline {
            headword: self.word.clone(),
            pos: self.pos.clone(),
            ipa_line,
            senses,
            etymology,
        }
    }
}

} // verus!
