//! What the SQLite queries are asked: the normalized key of a lookup, the
//! half-open key range of a prefix search, and which rows a lookup keeps.
//! The queries themselves run in the caller.
use vstd::prelude::*;

use crate::entry::Entry;
use crate::importer::{spec_row_of, Row};
use crate::text::{
    spec_lowercase, spec_str_le, spec_trim, std_char_from_u32, std_push_char, std_to_lowercase,
    trim,
};

verus! {

/// One language present in an edition, with its entry count.
#[derive(Debug, Clone)]
pub struct LanguageInfo {
    pub code: String,
    pub name: String,
    pub count: i64,
}

/// The largest code point.
pub open spec fn spec_max_char() -> char {
    '\u{10FFFF}'
}

/// The code point that follows that of `c` (which is not the largest),
/// skipping the surrogates, which are no characters.
pub open spec fn spec_next_code(c: char) -> u32 {
    if c as u32 == 0xD7FF {
        0xE000
    } else {
        (c as u32 + 1) as u32
    }
}

/// The least string that sorts after every string starting with `p`: `p`
/// without its trailing largest code points, with its last character
/// replaced by the next one. `None` where there is no such string (`p` is
/// empty or holds only the largest code point): every string from `p` on
/// starts with `p`.
pub open spec fn spec_successor(p: Seq<char>) -> Option<Seq<char>>
    decreases p.len(),
{
    if p.len() == 0 {
        None
    } else if p.last() == spec_max_char() {
        spec_successor(p.drop_last())
    } else {
        Some(p.drop_last().push(spec_next_code(p.last()) as char))
    }
}

/// The normalized form of a headword or query: trimmed, then lowercased.
/// The `word_norm` column holds this form of each headword.
pub open spec fn spec_norm(word: Seq<char>) -> Seq<char> {
    spec_lowercase(spec_trim(word))
}

/// `s` lies in the range from `lower` (included) to `upper` (excluded; no
/// bound where `None`), in the byte order that SQLite compares TEXT with.
pub open spec fn spec_in_range(lower: Seq<char>, upper: Option<Seq<char>>, s: Seq<char>) -> bool {
    spec_str_le(lower, s) && match upper {
        Some(u) => !spec_str_le(u, s),
        None => true,
    }
}

/// A range of normalized words: `lower <= w`, and `w < upper` where there is
/// an upper bound.
pub struct WordRange {
    pub lower: String,
    pub upper: Option<String>,
}

/// The key that a lookup of `word` matches `word_norm` against, so that the
/// lookup is case-insensitive.
pub fn lookup_key(word: &str) -> (r: String)
    ensures
        r@ == spec_norm(word@),
{
    std_to_lowercase(trim(word))
}

/// The range of `word_norm` values that an autocomplete for `prefix` asks
/// for: exactly the strings that start with the normalized prefix, from the
/// normalized prefix up to (not including) its successor. `None` where the
/// normalized prefix is empty, that is where `prefix` is blank: there is
/// nothing to complete.
pub fn prefix_range(prefix: &str) -> (r: Option<WordRange>)
    ensures
        r is None <==> spec_trim(prefix@).len() == 0,
        match r {
            Some(range) => {
                &&& spec_norm(prefix@).len() > 0
                &&& range.lower@ == spec_norm(prefix@)
                &&& match range.upper {
                    Some(u) => spec_successor(spec_norm(prefix@)) == Some(u@),
                    None => spec_successor(spec_norm(prefix@)) is None,
                }
            },
            None => spec_norm(prefix@).len() == 0,
        },
{
    let lower = std_to_lowercase(trim(prefix));
    let n = lower.as_str().unicode_len();
    if n == 0 {
        return None;
    }
    let mut k: usize = n;
    assert(lower@.take(n as int) =~= lower@);
    while k > 0 && lower.as_str().get_char(k - 1) == '\u{10FFFF}'
        invariant
            n == lower@.len(),
            k <= n,
            spec_successor(lower@) == spec_successor(lower@.take(k as int)),
        decreases k,
    {
        assert(lower@.take(k as int).drop_last() =~= lower@.take(k - 1));
        k = k - 1;
    }
    let upper = if k == 0 {
        assert(lower@.take(0) =~= Seq::<char>::empty());
        None
    } else {
        let c = lower.as_str().get_char(k - 1);
        let code = c as u32;
        let next: u32 = if code == 0xD7FF {
            0xE000
        } else {
            code + 1
        };
        proof {
            lemma_char_bound(c);
            lemma_char_ne(c, spec_max_char());
        }
        let d = std_char_from_u32(next).unwrap();
        proof {
            lemma_char_of_code(d, next);
        }
        let mut s = String::from_str(lower.as_str().substring_char(0, k - 1));
        std_push_char(&mut s, d);
        proof {
            assert(lower@.take(k as int).drop_last() =~= lower@.subrange(0, k - 1));
            assert(lower@.take(k as int).last() == c);
        }
        Some(s)
    };
    Some(WordRange { lower, upper })
}

/// The entries whose stored JSON parsed, in row order: a row that fails to
/// parse is skipped rather than failing the whole lookup.
pub fn keep_parsed(rows: Vec<Option<Entry>>) -> (r: Vec<Entry>)
    ensures
        r@ == rows@.filter_map(|x: Option<Entry>| x),
{
    let ghost all = rows@;
    let mut r: Vec<Entry> = Vec::new();
    for row in it: rows
        invariant
            it.seq() == all,
            r@ == all.take(it.index() as int).filter_map(|x: Option<Entry>| x),
    {
        assert(all.take(it.index() + 1).drop_last() =~= all.take(it.index() as int));
        match row {
            Some(e) => r.push(e),
            None => {},
        }
    }
    assert(all.take(all.len() as int) =~= all);
    r
}

proof fn lemma_char_bound(c: char)
    ensures
        (c as u32) <= 0x10FFFF,
{
}

proof fn lemma_char_ne(c: char, d: char)
    requires
        c != d,
    ensures
        (c as u32) != (d as u32),
{
}

/// A lookup finds the rows imported for a headword: the query, with any
/// surrounding whitespace, normalizes to the `word_norm` stored for it.
pub proof fn law_lookup_finds_imported_word(e: Entry, data: String, row: Row, query: Seq<char>)
    requires
        spec_row_of(e, data, row),
        spec_trim(query) == e.word@,
    ensures
        spec_norm(query) == row.word_norm@,
{
}

/// The autocomplete for any prefix of an imported headword's normalized
/// form asks for a range that holds that form.
pub proof fn law_autocomplete_finds_imported_word(e: Entry, data: String, row: Row, prefix: Seq<char>)
    requires
        spec_row_of(e, data, row),
        spec_norm(prefix).is_prefix_of(row.word_norm@),
    ensures
        spec_in_range(spec_norm(prefix), spec_successor(spec_norm(prefix)), row.word_norm@),
{
    law_prefix_range(spec_norm(prefix), row.word_norm@);
}

/// A prefix of a string sorts before or equal to it.
proof fn lemma_le_prefix(a: Seq<char>, b: Seq<char>)
    requires
        a.is_prefix_of(b),
    ensures
        spec_str_le(a, b),
    decreases a.len(),
{
    if a.len() > 0 {
        assert(a.drop_first().is_prefix_of(b.drop_first())) by {
            assert forall|i: int| 0 <= i < a.drop_first().len() implies a.drop_first()[i]
                == b.drop_first()[i] by {
                assert(a[i + 1] == b[i + 1]);
            }
        }
        lemma_le_prefix(a.drop_first(), b.drop_first());
        assert(a[0] == b[0]);
    }
}

/// A common beginning does not change the order.
proof fn lemma_le_common(q: Seq<char>, a: Seq<char>, b: Seq<char>)
    ensures
        spec_str_le(q + a, q + b) == spec_str_le(a, b),
    decreases q.len(),
{
    if q.len() == 0 {
        assert(q + a =~= a);
        assert(q + b =~= b);
    } else {
        lemma_le_common(q.drop_first(), a, b);
        assert((q + a).drop_first() =~= q.drop_first() + a);
        assert((q + b).drop_first() =~= q.drop_first() + b);
        assert((q + a)[0] == q[0]);
        assert((q + b)[0] == q[0]);
    }
}

proof fn lemma_char_of_code(d: char, u: u32)
    requires
        d as u32 == u,
    ensures
        d == u as char,
{
}

/// Between a character and the next code point there is no character.
proof fn lemma_next_code(c: char, x: char)
    requires
        c != spec_max_char(),
    ensures
        (spec_next_code(c) as char) as u32 == spec_next_code(c),
        (c as u32) < (x as u32) ==> spec_next_code(c) <= (x as u32),
        (c as u32) < spec_next_code(c),
{
    lemma_char_bound(c);
    lemma_char_bound(x);
    lemma_char_ne(c, spec_max_char());
}

/// For a `p` not ending in the largest code point, the strings from `p` up to
/// (not including) `p` with its last character replaced by the next one are
/// those starting with `p`.
proof fn lemma_range_step(q: Seq<char>, c: char, s: Seq<char>)
    requires
        c != spec_max_char(),
    ensures
        (spec_str_le(q.push(c), s) && !spec_str_le(q.push(spec_next_code(c) as char), s))
            <==> q.push(c).is_prefix_of(s),
    decreases q.len(),
{
    let d = spec_next_code(c) as char;
    if q.len() == 0 {
        assert(q.push(c) =~= seq![c]);
        assert(q.push(d) =~= seq![d]);
        if s.len() > 0 {
            lemma_next_code(c, s[0]);
            assert(seq![c].drop_first().len() == 0);
            assert(seq![d].drop_first().len() == 0);
            assert(spec_str_le(seq![c].drop_first(), s.drop_first()));
            assert(spec_str_le(seq![d].drop_first(), s.drop_first()));
            assert(seq![c][0] == c);
            assert(seq![d][0] == d);
            if s[0] == c {
                assert(seq![c].is_prefix_of(s));
                if s[0] == d {
                    assert(false);
                }
            } else {
                lemma_char_ne(s[0], c);
                if s[0] != d {
                    lemma_char_ne(s[0], d);
                }
                assert(!seq![c].is_prefix_of(s));
            }
        }
    } else if s.len() == 0 {
        assert(!q.push(c).is_prefix_of(s));
    } else {
        lemma_range_step(q.drop_first(), c, s.drop_first());
        assert(q.push(c).drop_first() =~= q.drop_first().push(c));
        assert(q.push(d).drop_first() =~= q.drop_first().push(d));
        assert(q.push(c)[0] == q[0]);
        assert(q.push(d)[0] == q[0]);
        if q[0] == s[0] {
            assert(q.push(c).is_prefix_of(s) <==> q.drop_first().push(c).is_prefix_of(s.drop_first())) by {
                if q.drop_first().push(c).is_prefix_of(s.drop_first()) {
                    assert forall|i: int| 0 <= i < q.push(c).len() implies q.push(c)[i] == s[i] by {
                        if i > 0 {
                            assert(q.push(c)[i] == q.drop_first().push(c)[i - 1]);
                        }
                    }
                }
                if q.push(c).is_prefix_of(s) {
                    assert forall|i: int| 0 <= i < q.drop_first().push(c).len() implies q.drop_first().push(c)[i]
                        == s.drop_first()[i] by {
                        assert(q.push(c)[i + 1] == s[i + 1]);
                    }
                }
            }
        } else {
            assert(!q.push(c).is_prefix_of(s)) by {
                assert(q.push(c)[0] != s[0]);
            }
            lemma_char_ne(q[0], s[0]);
        }
    }
}

/// The range that `prefix_range` asks for holds exactly the strings that
/// start with the normalized prefix: `s` is in the range from `lower` to its
/// successor exactly when `lower` is a prefix of `s`.
pub proof fn law_prefix_range(lower: Seq<char>, s: Seq<char>)
    ensures
        spec_in_range(lower, spec_successor(lower), s) <==> lower.is_prefix_of(s),
    decreases lower.len(),
{
    if lower.len() == 0 {
        assert(lower.is_prefix_of(s));
    } else {
        let q = lower.drop_last();
        let c = lower.last();
        assert(lower =~= q.push(c));
        if c != spec_max_char() {
            lemma_range_step(q, c, s);
        } else {
            law_prefix_range(q, s);
            if spec_in_range(lower, spec_successor(lower), s) {
                lemma_le_prefix(q, lower);
                crate::text::lemma_str_le_transitive(q, lower, s);
                // q is a prefix of s; what follows it in s is the largest code point.
                let r = s.skip(q.len() as int);
                assert(s =~= q + r);
                assert(lower =~= q + seq![c]);
                lemma_le_common(q, seq![c], r);
                assert(r.len() > 0);
                lemma_char_bound(r[0]);
                assert(spec_max_char() as u32 == 0x10FFFF);
                if r[0] != c {
                    lemma_char_ne(r[0], c);
                }
                assert(r[0] == c);
                assert forall|i: int| 0 <= i < lower.len() implies lower[i] == s[i] by {
                    if i < q.len() {
                        assert(q[i] == s[i]);
                    } else {
                        assert(s[i] == r[0]);
                    }
                }
            }
            if lower.is_prefix_of(s) {
                assert(q.is_prefix_of(s)) by {
                    assert forall|i: int| 0 <= i < q.len() implies q[i] == s[i] by {
                        assert(q[i] == lower[i]);
                    }
                }
                lemma_le_prefix(lower, s);
            }
        }
    }
}

} // verus!
