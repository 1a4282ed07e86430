use vstd::prelude::*;
use vstd::slice::slice_subrange;
use vstd::string::StrSliceExecFns;

use crate::laws::{lemma_empty_occurs, lemma_hits_all};
use crate::lines::{line_spans, lines_of};
use crate::text::{chars_of, has_substring, occurs_in};

verus! {

/// What `str::to_lowercase` makes of a text: it depends on the characters alone.
pub uninterp spec fn lower_of(s: Seq<char>) -> Seq<char>;

/// Relies on `str::to_lowercase`, applied to the text that `s` spells out,
/// for the lower-case form of that text.
#[verifier::external_body]
fn lowercase(s: &[char]) -> (r: Vec<char>)
    ensures
        r@ == lower_of(s@),
        s@.len() == 0 ==> r@.len() == 0,
{
    s.iter().collect::<String>().to_lowercase().chars().collect()
}

/// One matching line: its text, borrowed from the searched contents, and its
/// zero-based position among the lines of those contents.
#[derive(Debug, PartialEq)]
pub struct SearchResult<'a> {
    pub line: &'a str,
    pub lineno: usize,
}

impl<'a> View for SearchResult<'a> {
    type V = (int, Seq<char>);

    open spec fn view(&self) -> (int, Seq<char>) {
        (self.lineno as int, self.line@)
    }
}

/// Whether line `l` is a match for query `q`: by plain containment, or, when
/// `fold` is set, by containment after both are lowercased.
pub open spec fn line_matches(l: Seq<char>, q: Seq<char>, fold: bool) -> bool {
    if fold {
        has_substring(lower_of(l), lower_of(q))
    } else {
        has_substring(l, q)
    }
}

/// The matches among `ls`, in order, each paired with its index in `ls`.
pub open spec fn hits(ls: Seq<Seq<char>>, q: Seq<char>, fold: bool) -> Seq<(int, Seq<char>)>
    decreases ls.len(),
{
    if ls.len() == 0 {
        seq![]
    } else {
        let h = hits(ls.drop_last(), q, fold);
        if line_matches(ls.last(), q, fold) {
            h.push((ls.len() - 1, ls.last()))
        } else {
            h
        }
    }
}

/// The results of searching `contents` for `query`.
pub open spec fn search_spec(query: Seq<char>, contents: Seq<char>, fold: bool) -> Seq<
    (int, Seq<char>),
> {
    hits(lines_of(contents), query, fold)
}

/// Every line of `contents`, each under its own line number.
pub open spec fn all_lines(contents: Seq<char>) -> Seq<(int, Seq<char>)> {
    Seq::new(lines_of(contents).len(), |k: int| (k, lines_of(contents)[k]))
}

/// `r` holds, in order, exactly the entries of `expected`.
pub open spec fn results_are(r: Seq<SearchResult>, expected: Seq<(int, Seq<char>)>) -> bool {
    &&& r.len() == expected.len()
    &&& forall|i: int| 0 <= i < r.len() ==> (#[trigger] r[i])@ == expected[i]
}

/// One pass over the lines of `contents`, keeping those that match `query`
/// in the mode that `fold` picks.
fn scan<'a>(query: &str, contents: &'a str, fold: bool) -> (r: Vec<SearchResult<'a>>)
    ensures
        results_are(r@, search_spec(query@, contents@, fold)),
        query@.len() == 0 ==> search_spec(query@, contents@, fold) == all_lines(contents@),
{
    let c = chars_of(contents);
    let q0 = chars_of(query);
    let q = if fold {
        lowercase(q0.as_slice())
    } else {
        q0
    };
    let spans = line_spans(&c);
    let ghost ls = lines_of(c@);
    let mut r: Vec<SearchResult<'a>> = Vec::new();
    let mut j: usize = 0;
    while j < spans.len()
        invariant
            c@ == contents@,
            q@ == (if fold { lower_of(query@) } else { query@ }),
            spans@.len() == ls.len(),
            ls == lines_of(c@),
            j <= spans@.len(),
            forall|k: int| 0 <= k < spans@.len() ==> (#[trigger] spans@[k]).0 <= spans@[k].1 <= c@.len(),
            forall|k: int|
                0 <= k < spans@.len() ==> c@.subrange(spans@[k].0 as int, spans@[k].1 as int)
                    == #[trigger] ls[k],
            results_are(r@, hits(ls.take(j as int), query@, fold)),
        decreases spans@.len() - j,
    {
        let (s, e) = spans[j];
        let line = slice_subrange(c.as_slice(), s, e);
        assert(line@ == ls[j as int]);
        let found = if fold {
            let low = lowercase(line);
            occurs_in(low.as_slice(), q.as_slice())
        } else {
            occurs_in(line, q.as_slice())
        };
        assert(ls.take(j + 1).drop_last() =~= ls.take(j as int));
        if found {
            let text = contents.substring_char(s, e);
            r.push(SearchResult { line: text, lineno: j });
        }
        j = j + 1;
    }
    assert(ls.take(j as int) =~= ls);
    proof {
        if query@.len() == 0 {
            assert(q@ =~= Seq::<char>::empty());
            assert(query@ =~= Seq::<char>::empty());
            assert forall|k: int| 0 <= k < ls.len() implies line_matches(#[trigger] ls[k], query@, fold) by {
                lemma_empty_occurs(ls[k]);
                lemma_empty_occurs(lower_of(ls[k]));
            }
            lemma_hits_all(ls, query@, fold);
        }
    }
    r
}

/// Every line of `contents` that contains `query`, with its line number.
pub fn search<'a>(query: &str, contents: &'a str) -> (r: Vec<SearchResult<'a>>)
    ensures
        results_are(r@, search_spec(query@, contents@, false)),
{
    scan(query, contents, false)
}

/// Every line of `contents` whose lowercase form contains the lowercase form
/// of `query`, with its line number.
pub fn search_case_insensitive<'a>(query: &str, contents: &'a str) -> (r: Vec<SearchResult<'a>>)
    ensures
        results_are(r@, search_spec(query@, contents@, true)),
        query@.len() == 0 ==> results_are(r@, all_lines(contents@)),
{
    scan(query, contents, true)
}

} // verus!
