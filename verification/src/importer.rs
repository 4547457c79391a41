//! Bookkeeping of an edition install: download progress, the import of the
//! JSONL dump into rows batched for multi-row INSERTs, per-language counts,
//! and the progress reported along the way.
//!
//! The caller streams the download, decompresses and parses the lines, and
//! runs the SQL; the state machines here decide what is inserted and when
//! progress is reported.
use vstd::prelude::*;

use crate::catalog::{lang_name, spec_lang_name};
use crate::entry::Entry;
use crate::text::{
    lemma_str_le_antisymmetric, lemma_str_le_connected, lemma_str_le_transitive, spec_lowercase,
    spec_str_le, spec_trim, std_to_lowercase, str_eq, str_le, trim,
};

verus! {

/// Progress updates emitted during an install.
#[derive(Debug, Clone)]
pub enum Progress {
    /// Bytes downloaded so far (and total, if the server reported it).
    Downloading { received: u64, total: Option<u64> },
    /// Entries imported into the database so far.
    Importing { entries: u64 },
    /// Install finished successfully.
    Done { entries: u64 },
    /// Install failed.
    Failed(String),
}

/// Download progress is reported each time this many more bytes arrived.
pub const DOWNLOAD_REPORT_BYTES: u64 = 4_000_000;

/// Rows are inserted with one statement per this many rows.
pub const BATCH_SIZE: usize = 100;

/// Import progress is reported each time this many more entries were read.
pub const IMPORT_REPORT_ENTRIES: u64 = 50_000;

/// The last report of an install: `Done` with the number of imported entries
/// when it succeeded, `Failed` with the error's message when it did not. An
/// install always ends with one of the two.
pub fn final_progress(result: Result<u64, String>) -> (r: Progress)
    ensures
        match result {
            Ok(n) => r == (Progress::Done { entries: n }),
            Err(e) => r == Progress::Failed(e),
        },
{
    match result {
        Ok(entries) => Progress::Done { entries },
        Err(e) => Progress::Failed(e),
    }
}

/// The value of a string of ASCII decimal digits.
pub open spec fn spec_digits_value(d: Seq<char>) -> int
    decreases d.len(),
{
    if d.len() == 0 {
        0
    } else {
        spec_digits_value(d.drop_last()) * 10 + (d.last() as u32 - 48)
    }
}

/// Every character of `d` is an ASCII digit.
pub open spec fn spec_all_digits(d: Seq<char>) -> bool {
    forall|i: int| 0 <= i < d.len() ==> 48 <= (#[trigger] d[i]) as u32 <= 57
}

/// The digits of a decimal number: `s` without a leading '+'.
pub open spec fn spec_unsigned_digits(s: Seq<char>) -> Seq<char> {
    if s.len() > 0 && s[0] == '+' {
        s.drop_first()
    } else {
        s
    }
}

/// What `str::parse::<u64>` gives for `s`: an optional '+' followed by at
/// least one ASCII digit, with a value that fits in 64 bits.
pub open spec fn spec_parse_u64(s: Seq<char>) -> Option<u64> {
    let d = spec_unsigned_digits(s);
    if d.len() > 0 && spec_all_digits(d) && spec_digits_value(d) <= u64::MAX {
        Some(spec_digits_value(d) as u64)
    } else {
        None
    }
}

proof fn lemma_digits_value_nonneg(d: Seq<char>)
    requires
        spec_all_digits(d),
    ensures
        spec_digits_value(d) >= 0,
    decreases d.len(),
{
    if d.len() > 0 {
        lemma_digits_value_nonneg(d.drop_last());
    }
}

proof fn lemma_digits_value_grows(d: Seq<char>, i: int)
    requires
        spec_all_digits(d),
        0 <= i <= d.len(),
    ensures
        spec_digits_value(d.take(i)) <= spec_digits_value(d),
    decreases d.len() - i,
{
    if i == d.len() {
        assert(d.take(i) =~= d);
    } else {
        lemma_digits_value_grows(d, i + 1);
        assert(d.take(i + 1).drop_last() =~= d.take(i));
        lemma_digits_value_nonneg(d.take(i));
        assert(48 <= d[i] as u32 <= 57);
        assert(d.take(i + 1).last() == d[i]);
        assert(spec_digits_value(d.take(i)) <= spec_digits_value(d.take(i + 1))) by (nonlinear_arith)
            requires
                spec_digits_value(d.take(i + 1)) == spec_digits_value(d.take(i)) * 10 + (d[i] as u32
                    - 48),
                spec_digits_value(d.take(i)) >= 0,
                (d[i] as u32) >= 48,
        ;
    }
}

/// The number that a `Content-Length` header value gives, as
/// `str::parse::<u64>` reads it; `None` where it is not one.
pub fn parse_content_length(s: &str) -> (r: Option<u64>)
    ensures
        r == spec_parse_u64(s@),
{
    let n = s.unicode_len();
    let mut start: usize = 0;
    if n > 0 && s.get_char(0) == '+' {
        start = 1;
    }
    let ghost d = spec_unsigned_digits(s@);
    assert(d =~= s@.skip(start as int));
    if start >= n {
        return None;
    }
    let mut value: u64 = 0;
    let mut i: usize = start;
    while i < n
        invariant
            n == s@.len(),
            start <= i <= n,
            d == s@.skip(start as int),
            d == spec_unsigned_digits(s@),
            spec_all_digits(d.take(i - start)),
            value == spec_digits_value(d.take(i - start)),
        decreases n - i,
    {
        let c = s.get_char(i);
        assert(d[i - start] == c);
        assert(d.take(i - start + 1).drop_last() =~= d.take(i - start));
        let u = c as u32;
        if u < 48 || u > 57 {
            proof {
                assert(!spec_all_digits(d)) by {
                    assert(d[i - start] == c);
                }
            }
            return None;
        }
        let digit = (u - 48) as u64;
        assert(d.take(i - start + 1).last() == c);
        if value > (u64::MAX - digit) / 10 {
            proof {
                assert(spec_all_digits(d.take(i - start + 1)));
                assert(spec_digits_value(d.take(i - start + 1)) > u64::MAX) by (nonlinear_arith)
                    requires
                        value > (u64::MAX - digit) / 10,
                        spec_digits_value(d.take(i - start + 1)) == value * 10 + digit,
                        digit <= 9,
                ;
                if spec_all_digits(d) {
                    lemma_digits_value_grows(d, i - start + 1);
                }
            }
            return None;
        }
        assert(value * 10 + digit <= u64::MAX) by (nonlinear_arith)
            requires
                value <= (u64::MAX - digit) / 10,
                digit <= 9,
        ;
        value = value * 10 + digit;
        i = i + 1;
    }
    assert(d.take(n - start) =~= d);
    Some(value)
}

/// Download progress: how many bytes arrived, and when they were last
/// reported.
pub struct DownloadMeter {
    received: u64,
    last_report: u64,
    total: Option<u64>,
}

impl DownloadMeter {
    /// Bytes received so far.
    pub closed spec fn spec_received(&self) -> u64 {
        self.received
    }

    /// Bytes received when progress was last reported.
    pub closed spec fn spec_last_report(&self) -> u64 {
        self.last_report
    }

    /// The size of the download, if the server said it.
    pub closed spec fn spec_total(&self) -> Option<u64> {
        self.total
    }

    /// Bytes received so far.
    pub fn received(&self) -> (r: u64)
        ensures
            r == self.spec_received(),
    {
        self.received
    }

    /// Bytes that arrived since the last report stay under the reporting
    /// step.
    pub closed spec fn wf(&self) -> bool {
        &&& self.last_report <= self.received
        &&& self.received - self.last_report < DOWNLOAD_REPORT_BYTES
    }

    /// A meter for a download of `total` bytes, if the server said so.
    pub fn new(total: Option<u64>) -> (r: DownloadMeter)
        ensures
            r.wf(),
            r.spec_received() == 0,
            r.spec_last_report() == 0,
            r.spec_total() == total,
    {
        DownloadMeter { received: 0, last_report: 0, total }
    }

    /// Count `n` more bytes; report progress where a reporting step's worth
    /// of bytes arrived since the last report.
    pub fn on_chunk(&mut self, n: u64) -> (r: Option<Progress>)
        requires
            old(self).wf(),
            old(self).spec_received() + n <= u64::MAX,
        ensures
            final(self).wf(),
            final(self).spec_received() == old(self).spec_received() + n,
            final(self).spec_last_report() <= final(self).spec_received(),
            final(self).spec_received() - final(self).spec_last_report() < DOWNLOAD_REPORT_BYTES,
            final(self).spec_total() == old(self).spec_total(),
            match r {
                Some(p) => {
                    &&& final(self).spec_received() - old(self).spec_last_report() >= DOWNLOAD_REPORT_BYTES
                    &&& final(self).spec_last_report() == final(self).spec_received()
                    &&& p == (Progress::Downloading {
                        received: final(self).spec_received(),
                        total: old(self).spec_total(),
                    })
                },
                None => {
                    &&& final(self).spec_received() - old(self).spec_last_report() < DOWNLOAD_REPORT_BYTES
                    &&& final(self).spec_last_report() == old(self).spec_last_report()
                },
            },
    {
        self.received = self.received + n;
        if self.received - self.last_report >= DOWNLOAD_REPORT_BYTES {
            self.last_report = self.received;
            Some(Progress::Downloading { received: self.received, total: self.total })
        } else {
            None
        }
    }

    /// The report when the download completes.
    pub fn finish(&self) -> (r: Progress)
        ensures
            r == (Progress::Downloading { received: self.spec_received(), total: self.spec_total() }),
    {
        Progress::Downloading { received: self.received, total: self.total }
    }
}

/// One `entries` row: headword, normalized headword, language, part of
/// speech, and the entry's JSON.
#[derive(Debug, Clone)]
pub struct Row {
    pub word: String,
    pub word_norm: String,
    pub lang_code: String,
    pub pos: String,
    pub data: String,
}

/// How many entries of one headword language were imported.
#[derive(Debug, Clone)]
pub struct LangCount {
    pub code: String,
    pub count: u64,
}

/// One `languages` row: code, display name, entry count.
#[derive(Debug, Clone)]
pub struct LanguageRow {
    pub code: String,
    pub name: String,
    pub count: i64,
}

/// What the caller does after an entry was added: run the batch insert of
/// `flush` if there is one, and report `progress` if there is one.
pub struct ImportStep {
    pub flush: Option<Vec<Row>>,
    pub progress: Option<Progress>,
}

/// What is left at the end of an import: the rows that did not fill a batch
/// (inserted one at a time), the `languages` rows, and the last report.
pub struct ImportEnd {
    pub rest: Vec<Row>,
    pub languages: Vec<LanguageRow>,
    pub progress: Progress,
}

/// A line of the dump that holds nothing but whitespace is skipped.
pub fn is_blank(line: &str) -> (r: bool)
    ensures
        r == (spec_trim(line@).len() == 0),
{
    trim(line).is_empty()
}

/// An entry is imported only where it has a headword and a language.
pub open spec fn spec_importable(e: Entry) -> bool {
    e.word@.len() > 0 && e.lang_code@.len() > 0
}

/// Whether `e` is imported.
pub fn is_importable(e: &Entry) -> (r: bool)
    ensures
        r == spec_importable(*e),
{
    !e.word.as_str().is_empty() && !e.lang_code.as_str().is_empty()
}

/// How many times `c` occurs in `s`.
pub open spec fn spec_occurrences(s: Seq<Seq<char>>, c: Seq<char>) -> nat
    decreases s.len(),
{
    if s.len() == 0 {
        0
    } else {
        spec_occurrences(s.drop_last(), c) + if s.last() == c {
            1nat
        } else {
            0nat
        }
    }
}

proof fn lemma_occurrences_push(s: Seq<Seq<char>>, x: Seq<char>, c: Seq<char>)
    ensures
        spec_occurrences(s.push(x), c) == spec_occurrences(s, c) + if x == c {
            1nat
        } else {
            0nat
        },
{
    assert(s.push(x).drop_last() =~= s);
}

proof fn lemma_occurrences_bounds(s: Seq<Seq<char>>, c: Seq<char>)
    ensures
        spec_occurrences(s, c) <= s.len(),
        spec_occurrences(s, c) > 0 ==> exists|k: int| 0 <= k < s.len() && s[k] == c,
    decreases s.len(),
{
    if s.len() > 0 {
        lemma_occurrences_bounds(s.drop_last(), c);
        if spec_occurrences(s.drop_last(), c) > 0 {
            let k = choose|k: int| 0 <= k < s.drop_last().len() && s.drop_last()[k] == c;
            assert(s[k] == c);
        }
        if s.last() == c {
            assert(s[s.len() - 1] == c);
        }
    }
}

/// The row that an imported entry becomes: its headword, the headword
/// lowercased, its language and part of speech, and its JSON.
pub open spec fn spec_row_of(e: Entry, data: String, row: Row) -> bool {
    &&& row.word == e.word
    &&& row.word_norm@ == spec_lowercase(e.word@)
    &&& row.lang_code == e.lang_code
    &&& row.pos == e.pos
    &&& row.data == data
}

/// The sum of the per-language counts.
pub open spec fn spec_count_sum(counts: Seq<LangCount>) -> int
    decreases counts.len(),
{
    if counts.len() == 0 {
        0
    } else {
        spec_count_sum(counts.drop_last()) + counts.last().count
    }
}

/// The sum of the counts of the `languages` rows.
pub open spec fn spec_row_sum(rows: Seq<LanguageRow>) -> int
    decreases rows.len(),
{
    if rows.len() == 0 {
        0
    } else {
        spec_row_sum(rows.drop_last()) + rows.last().count
    }
}

proof fn lemma_count_sum_nonneg(s: Seq<LangCount>)
    ensures
        spec_count_sum(s) >= 0,
    decreases s.len(),
{
    if s.len() > 0 {
        lemma_count_sum_nonneg(s.drop_last());
    }
}

/// Each count is at most the sum of the counts.
proof fn lemma_count_bounded(s: Seq<LangCount>, i: int)
    requires
        0 <= i < s.len(),
    ensures
        s[i].count <= spec_count_sum(s),
    decreases s.len(),
{
    lemma_count_sum_nonneg(s.drop_last());
    if i < s.len() - 1 {
        lemma_count_bounded(s.drop_last(), i);
    }
}

proof fn lemma_count_sum_update(s: Seq<LangCount>, i: int, v: LangCount)
    requires
        0 <= i < s.len(),
    ensures
        spec_count_sum(s.update(i, v)) == spec_count_sum(s) - s[i].count + v.count,
    decreases s.len(),
{
    if i == s.len() - 1 {
        assert(s.update(i, v).drop_last() =~= s.drop_last());
    } else {
        lemma_count_sum_update(s.drop_last(), i, v);
        assert(s.update(i, v).drop_last() =~= s.drop_last().update(i, v));
    }
}

proof fn lemma_count_sum_insert(s: Seq<LangCount>, i: int, v: LangCount)
    requires
        0 <= i <= s.len(),
    ensures
        spec_count_sum(s.insert(i, v)) == spec_count_sum(s) + v.count,
    decreases s.len(),
{
    if i == s.len() {
        assert(s.insert(i, v).drop_last() =~= s);
    } else {
        lemma_count_sum_insert(s.drop_last(), i, v);
        assert(s.insert(i, v).drop_last() =~= s.drop_last().insert(i, v));
    }
}

/// Every language of `langs` has a row in `languages`.
pub open spec fn spec_covers(languages: Seq<LanguageRow>, langs: Seq<Seq<char>>) -> bool {
    forall|k: int| 0 <= k < langs.len() ==> #[trigger] spec_has_row(languages, langs[k])
}

/// `languages` holds a row for the language `c`.
pub open spec fn spec_has_row(languages: Seq<LanguageRow>, c: Seq<char>) -> bool {
    exists|i: int| 0 <= i < languages.len() && #[trigger] languages[i].code@ == c
}

/// `counts` holds a count for the language `c`.
pub open spec fn spec_has_count(counts: Seq<LangCount>, c: Seq<char>) -> bool {
    exists|i: int| 0 <= i < counts.len() && #[trigger] counts[i].code@ == c
}

proof fn lemma_covers(languages: Seq<LanguageRow>, counts: Seq<LangCount>, langs: Seq<Seq<char>>)
    requires
        languages.len() == counts.len(),
        forall|j: int| 0 <= j < counts.len() ==> #[trigger] languages[j].code@ == counts[j].code@,
        forall|k: int| 0 <= k < langs.len() ==> #[trigger] spec_has_count(counts, langs[k]),
    ensures
        spec_covers(languages, langs),
{
    assert forall|k: int| 0 <= k < langs.len() implies #[trigger] spec_has_row(languages, langs[k]) by {
        assert(spec_has_count(counts, langs[k]));
        let i = choose|i: int| 0 <= i < counts.len() && #[trigger] counts[i].code@ == langs[k];
        assert(languages[i].code@ == counts[i].code@);
    }
}

/// `a` sorts strictly before `b`.
pub open spec fn spec_str_lt(a: Seq<char>, b: Seq<char>) -> bool {
    spec_str_le(a, b) && a != b
}

/// The import of one dump: the entries read so far, their per-language
/// counts, and the rows not yet inserted.
pub struct Importer {
    counts: Vec<LangCount>,
    count: u64,
    batch: Vec<Row>,
    /// The languages of the imported entries, in order.
    langs: Ghost<Seq<Seq<char>>>,
}

impl Importer {
    /// The languages of the entries imported so far, in order.
    pub closed spec fn imported_langs(&self) -> Seq<Seq<char>> {
        self.langs@
    }

    /// The rows not yet handed out for insertion.
    pub closed spec fn pending(&self) -> Seq<Row> {
        self.batch@
    }

    /// The per-language counts, sorted by code.
    pub closed spec fn lang_counts(&self) -> Seq<LangCount> {
        self.counts@
    }

    /// The number of entries imported so far.
    pub closed spec fn imported(&self) -> nat {
        self.count as nat
    }

    /// The number of entries imported so far.
    pub fn imported_count(&self) -> (r: u64)
        ensures
            r == self.imported(),
    {
        self.count
    }

    pub closed spec fn wf(&self) -> bool {
        &&& self.count == self.langs@.len()
        &&& spec_count_sum(self.counts@) == self.count
        &&& self.batch@.len() == self.count % (BATCH_SIZE as u64)
        &&& forall|i: int, j: int|
            0 <= i < j < self.counts@.len() ==> spec_str_lt(
                #[trigger] self.counts@[i].code@,
                #[trigger] self.counts@[j].code@,
            )
        &&& forall|i: int|
            0 <= i < self.counts@.len() ==> #[trigger] self.counts@[i].count == spec_occurrences(
                self.langs@,
                self.counts@[i].code@,
            ) && self.counts@[i].count > 0
        &&& forall|k: int|
            0 <= k < self.langs@.len() ==> #[trigger] spec_has_count(self.counts@, self.langs@[k])
    }

    /// An import with nothing read yet.
    pub fn new() -> (r: Importer)
        ensures
            r.wf(),
            r.imported() == 0,
            r.pending().len() == 0,
            r.imported_langs() == Seq::<Seq<char>>::empty(),
            r.pending() == Seq::<Row>::empty(),
    {
        Importer {
            counts: Vec::new(),
            count: 0,
            batch: Vec::new(),
            langs: Ghost(Seq::empty()),
        }
    }

    /// Position of `code` in the counts, or where it belongs.
    fn find(&self, code: &str) -> (r: (usize, bool))
        requires
            self.wf(),
        ensures
            r.0 <= self.counts@.len(),
            r.1 ==> r.0 < self.counts@.len() && self.counts@[r.0 as int].code@ == code@,
            !r.1 ==> forall|i: int| 0 <= i < r.0 ==> spec_str_lt(#[trigger] self.counts@[i].code@, code@),
            !r.1 ==> forall|i: int|
                r.0 <= i < self.counts@.len() ==> spec_str_lt(code@, #[trigger] self.counts@[i].code@),
    {
        let mut lo: usize = 0;
        let mut hi: usize = self.counts.len();
        while lo < hi
            invariant
                self.wf(),
                lo <= hi <= self.counts@.len(),
                forall|i: int| 0 <= i < lo ==> spec_str_lt(#[trigger] self.counts@[i].code@, code@),
                forall|i: int|
                    hi <= i < self.counts@.len() ==> spec_str_lt(code@, #[trigger] self.counts@[i].code@),
            decreases hi - lo,
        {
            let mid = lo + (hi - lo) / 2;
            let m = self.counts[mid].code.as_str();
            if str_eq(m, code) {
                return (mid, true);
            }
            if str_le(m, code) {
                proof {
                    assert forall|i: int| 0 <= i < mid + 1 implies spec_str_lt(
                        #[trigger] self.counts@[i].code@,
                        code@,
                    ) by {
                        if i < mid {
                            assert(spec_str_lt(self.counts@[i].code@, self.counts@[mid as int].code@));
                            lemma_str_le_transitive(self.counts@[i].code@, m@, code@);
                            if self.counts@[i].code@ == code@ {
                                lemma_str_le_antisymmetric(m@, code@);
                            }
                        }
                    }
                }
                lo = mid + 1;
            } else {
                proof {
                    lemma_str_le_connected(m@, code@);
                    assert forall|i: int| mid <= i < self.counts@.len() implies spec_str_lt(
                        code@,
                        #[trigger] self.counts@[i].code@,
                    ) by {
                        if i > mid {
                            assert(spec_str_lt(self.counts@[mid as int].code@, self.counts@[i].code@));
                            lemma_str_le_transitive(code@, m@, self.counts@[i].code@);
                            if self.counts@[i].code@ == code@ {
                                lemma_str_le_antisymmetric(m@, code@);
                            }
                        }
                    }
                }
                hi = mid;
            }
        }
        (lo, false)
    }

    /// Import `entry`, whose JSON is `data`: its row joins the pending batch;
    /// a full batch is handed out for one multi-row INSERT; progress is
    /// reported every `IMPORT_REPORT_ENTRIES` entries.
    pub fn add(&mut self, entry: Entry, data: String) -> (r: ImportStep)
        requires
            old(self).wf(),
            spec_importable(entry),
            old(self).imported() < u64::MAX,
        ensures
            final(self).wf(),
            final(self).imported() == old(self).imported() + 1,
            final(self).pending().len() == final(self).imported() % (BATCH_SIZE as nat),
            final(self).imported_langs() == old(self).imported_langs().push(entry.lang_code@),
            match r.flush {
                Some(rows) => {
                    &&& old(self).pending().len() + 1 == BATCH_SIZE
                    &&& rows@.len() == BATCH_SIZE
                    &&& rows@.drop_last() == old(self).pending()
                    &&& spec_row_of(entry, data, rows@.last())
                    &&& final(self).pending().len() == 0
                },
                None => {
                    &&& old(self).pending().len() + 1 < BATCH_SIZE
                    &&& final(self).pending().len() == old(self).pending().len() + 1
                    &&& final(self).pending().drop_last() == old(self).pending()
                    &&& spec_row_of(entry, data, final(self).pending().last())
                },
            },
            r.progress == if final(self).imported() % (IMPORT_REPORT_ENTRIES as nat) == 0 {
                Some((Progress::Importing { entries: final(self).imported() as u64 }))
            } else {
                None::<Progress>
            },
    {
        let ghost old_langs = self.langs@;
        let ghost old_counts = self.counts@;
        let ghost lang = entry.lang_code@;
        let (pos, found) = self.find(entry.lang_code.as_str());
        proof {
            lemma_occurrences_bounds(old_langs, lang);
        }
        if found {
            let c = self.counts[pos].count;
            let code = self.counts[pos].code.clone();
            let v = LangCount { code, count: c + 1 };
            proof {
                lemma_count_sum_update(old_counts, pos as int, v);
            }
            self.counts.set(pos, v);
        } else {
            proof {
                if spec_occurrences(old_langs, lang) > 0 {
                    let k = choose|k: int| 0 <= k < old_langs.len() && old_langs[k] == lang;
                    assert(spec_has_count(old_counts, old_langs[k]));
                    let i = choose|i: int|
                        0 <= i < old_counts.len() && #[trigger] old_counts[i].code@ == old_langs[k];
                    assert(spec_str_lt(old_counts[i].code@, lang) || spec_str_lt(lang, old_counts[i].code@));
                }
            }
            let v = LangCount { code: entry.lang_code.clone(), count: 1 };
            proof {
                lemma_count_sum_insert(old_counts, pos as int, v);
            }
            self.counts.insert(pos, v);
        }
        self.langs = Ghost(old_langs.push(lang));
        self.count = self.count + 1;
        proof {
            let nc = self.counts@;
            let nl = self.langs@;
            assert forall|i: int| 0 <= i < nc.len() implies #[trigger] nc[i].count == spec_occurrences(
                nl,
                nc[i].code@,
            ) by {
                lemma_occurrences_push(old_langs, lang, nc[i].code@);
                if found {
                    if i != pos {
                        assert(spec_str_lt(old_counts[i].code@, old_counts[pos as int].code@)
                            || spec_str_lt(old_counts[pos as int].code@, old_counts[i].code@));
                    }
                } else if i < pos {
                    assert(nc[i] == old_counts[i]);
                } else if i > pos {
                    assert(nc[i] == old_counts[i - 1]);
                }
            }
            assert forall|i: int, j: int| 0 <= i < j < nc.len() implies spec_str_lt(
                #[trigger] nc[i].code@,
                #[trigger] nc[j].code@,
            ) by {
                if !found {
                    if j < pos {
                    } else if j == pos {
                    } else if i < pos {
                        assert(nc[j] == old_counts[j - 1]);
                        assert(spec_str_lt(lang, old_counts[j - 1].code@));
                        lemma_str_le_transitive(nc[i].code@, lang, nc[j].code@);
                        if nc[i].code@ == nc[j].code@ {
                            lemma_str_le_antisymmetric(lang, nc[j].code@);
                        }
                    } else if i == pos {
                        assert(nc[j] == old_counts[j - 1]);
                    } else {
                        assert(nc[i] == old_counts[i - 1]);
                        assert(nc[j] == old_counts[j - 1]);
                    }
                } else {
                    assert(nc[i].code@ == old_counts[i].code@);
                    assert(nc[j].code@ == old_counts[j].code@);
                }
            }
            assert forall|k: int| 0 <= k < nl.len() implies #[trigger] spec_has_count(nc, nl[k]) by {
                if k == old_langs.len() {
                    assert(nc[pos as int].code@ == nl[k]);
                } else {
                    assert(nl[k] == old_langs[k]);
                    assert(spec_has_count(old_counts, old_langs[k]));
                    let i = choose|i: int|
                        0 <= i < old_counts.len() && #[trigger] old_counts[i].code@ == old_langs[k];
                    if found {
                        assert(nc[i].code@ == nl[k]);
                    } else if i < pos {
                        assert(nc[i] == old_counts[i]);
                    } else {
                        assert(nc[i + 1] == old_counts[i]);
                    }
                }
            }
        }
        let norm = std_to_lowercase(entry.word.as_str());
        let row = Row {
            word: entry.word,
            word_norm: norm,
            lang_code: entry.lang_code,
            pos: entry.pos,
            data,
        };
        self.batch.push(row);
        assert(self.count % 100 == (old(self).count % 100 + 1) % 100);
        let flush = if self.batch.len() == BATCH_SIZE {
            let mut full: Vec<Row> = Vec::new();
            core::mem::swap(&mut full, &mut self.batch);
            Some(full)
        } else {
            None
        };
        let progress = if self.count % IMPORT_REPORT_ENTRIES == 0 {
            Some(Progress::Importing { entries: self.count })
        } else {
            None
        };
        ImportStep { flush, progress }
    }

    /// The end of the import: the rows left over, the `languages` rows (code,
    /// display name, count) sorted by code, and the last report with the
    /// number of imported entries.
    pub fn finish(self) -> (r: ImportEnd)
        requires
            self.wf(),
        ensures
            r.rest@ == self.pending(),
            r.progress == (Progress::Importing { entries: self.imported() as u64 }),
            forall|i: int, j: int|
                0 <= i < j < r.languages@.len() ==> spec_str_lt(
                    #[trigger] r.languages@[i].code@,
                    #[trigger] r.languages@[j].code@,
                ),
            forall|i: int|
                0 <= i < r.languages@.len() ==> (#[trigger] r.languages@[i].name@ == spec_lang_name(
                    r.languages@[i].code@,
                ) && r.languages@[i].count == spec_occurrences(
                    self.imported_langs(),
                    r.languages@[i].code@,
                ) as i64 && spec_occurrences(self.imported_langs(), r.languages@[i].code@) > 0),
            spec_covers(r.languages@, self.imported_langs()),
            self.imported() <= i64::MAX ==> spec_row_sum(r.languages@) == self.imported(),
    {
        let mut languages: Vec<LanguageRow> = Vec::new();
        let mut i: usize = 0;
        while i < self.counts.len()
            invariant
                self.wf(),
                i <= self.counts.len(),
                languages@.len() == i,
                self.count <= i64::MAX ==> spec_row_sum(languages@) == spec_count_sum(
                    self.counts@.take(i as int),
                ),
                forall|j: int|
                    0 <= j < i ==> ((#[trigger] languages@[j]).code@ == self.counts@[j].code@
                        && languages@[j].name@ == spec_lang_name(self.counts@[j].code@)
                        && languages@[j].count == self.counts@[j].count as i64),
            decreases self.counts.len() - i,
        {
            let c = &self.counts[i];
            let name = String::from_str(lang_name(c.code.as_str()));
            let ghost before = languages@;
            proof {
                assert(self.counts@.take(i + 1).drop_last() =~= self.counts@.take(i as int));
                lemma_count_bounded(self.counts@, i as int);
            }
            languages.push(LanguageRow { code: c.code.clone(), name, count: c.count as i64 });
            assert(languages@.drop_last() =~= before);
            i = i + 1;
        }
        assert(self.counts@.take(self.counts@.len() as int) =~= self.counts@);
        let ghost langs = self.langs@;
        let ghost counts = self.counts@;
        let r = ImportEnd {
            rest: self.batch,
            languages,
            progress: Progress::Importing { entries: self.count },
        };
        proof {
            lemma_covers(r.languages@, counts, langs);
        }
        assert(spec_covers(r.languages@, langs));
        r
    }
}

} // verus!
