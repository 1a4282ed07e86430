use vstd::prelude::*;

use crate::lines::lines_of;
use crate::search::{all_lines, hits, line_matches, lower_of, results_are, search_spec, SearchResult};
use crate::text::has_substring;

verus! {

/// Some entry of `r` has line number `k`.
pub open spec fn has_lineno(r: Seq<SearchResult>, k: int) -> bool {
    exists|i: int| 0 <= i < r.len() && #[trigger] r[i].lineno == k
}

/// Each entry of `hits` names a line of `ls` by its index, carries that line's
/// text, and is a match; the indices strictly increase.
proof fn lemma_hits_entries(ls: Seq<Seq<char>>, q: Seq<char>, fold: bool)
    ensures
        forall|i: int|
            0 <= i < hits(ls, q, fold).len() ==> {
                let e = #[trigger] hits(ls, q, fold)[i];
                &&& 0 <= e.0 < ls.len()
                &&& e.1 == ls[e.0]
                &&& line_matches(e.1, q, fold)
            },
        forall|i: int, j: int|
            0 <= i < j < hits(ls, q, fold).len() ==> (#[trigger] hits(ls, q, fold)[i]).0
                < (#[trigger] hits(ls, q, fold)[j]).0,
    decreases ls.len(),
{
    if ls.len() > 0 {
        let init = ls.drop_last();
        lemma_hits_entries(init, q, fold);
        assert forall|i: int| 0 <= i < hits(init, q, fold).len() implies
            (#[trigger] hits(init, q, fold)[i]).1 == ls[hits(init, q, fold)[i].0] by {
            assert(init[hits(init, q, fold)[i].0] == ls[hits(init, q, fold)[i].0]);
        }
    }
}

/// Line `k` of `ls` has an entry in `hits` exactly when it is a match.
proof fn lemma_hits_member(ls: Seq<Seq<char>>, q: Seq<char>, fold: bool, k: int)
    requires
        0 <= k < ls.len(),
    ensures
        (exists|i: int| 0 <= i < hits(ls, q, fold).len() && (#[trigger] hits(ls, q, fold)[i]).0 == k)
            <==> line_matches(ls[k], q, fold),
    decreases ls.len(),
{
    let h = hits(ls, q, fold);
    let init = ls.drop_last();
    lemma_hits_entries(ls, q, fold);
    if k < ls.len() - 1 {
        lemma_hits_member(init, q, fold, k);
        lemma_hits_entries(init, q, fold);
        let hi = hits(init, q, fold);
        assert(init[k] == ls[k]);
        if line_matches(ls[k], q, fold) {
            let i = choose|i: int| 0 <= i < hi.len() && (#[trigger] hi[i]).0 == k;
            assert(h[i] == hi[i]);
        }
    } else if line_matches(ls[k], q, fold) {
        assert(h[h.len() - 1].0 == k);
    }
}

/// Every result of a case-sensitive search is a line of the contents that
/// contains the query, under its own zero-based line number; the results come
/// in increasing line order.
pub proof fn law_search_results_contain_query(
    query: Seq<char>,
    contents: Seq<char>,
    r: Seq<SearchResult>,
)
    requires
        results_are(r, search_spec(query, contents, false)),
    ensures
        forall|i: int|
            0 <= i < r.len() ==> {
                &&& #[trigger] r[i].lineno < lines_of(contents).len()
                &&& lines_of(contents)[r[i].lineno as int] == r[i].line@
                &&& has_substring(r[i].line@, query)
            },
        forall|i: int, j: int| 0 <= i < j < r.len() ==> #[trigger] r[i].lineno < #[trigger] r[j].lineno,
{
    lemma_hits_entries(lines_of(contents), query, false);
    assert forall|i: int| 0 <= i < r.len() implies {
        &&& #[trigger] r[i].lineno < lines_of(contents).len()
        &&& lines_of(contents)[r[i].lineno as int] == r[i].line@
        &&& has_substring(r[i].line@, query)
    } by {
        assert(r[i]@ == search_spec(query, contents, false)[i]);
    }
    assert forall|i: int, j: int| 0 <= i < j < r.len() implies #[trigger] r[i].lineno
        < #[trigger] r[j].lineno by {
        assert(r[i]@ == search_spec(query, contents, false)[i]);
        assert(r[j]@ == search_spec(query, contents, false)[j]);
    }
}

/// A case-insensitive search returns line `k` exactly when the lowercase form
/// of that line contains the lowercase form of the query.
pub proof fn law_case_insensitive_matches(
    query: Seq<char>,
    contents: Seq<char>,
    r: Seq<SearchResult>,
    k: int,
)
    requires
        results_are(r, search_spec(query, contents, true)),
        0 <= k < lines_of(contents).len(),
    ensures
        has_lineno(r, k) <==> has_substring(
            lower_of(lines_of(contents)[k]),
            lower_of(query),
        ),
{
    let ls = lines_of(contents);
    let h = search_spec(query, contents, true);
    lemma_hits_member(ls, query, true, k);
    if has_lineno(r, k) {
        let i = choose|i: int| 0 <= i < r.len() && #[trigger] r[i].lineno == k;
        assert(r[i]@ == h[i]);
    }
    if has_substring(lower_of(ls[k]), lower_of(query)) {
        let i = choose|i: int| 0 <= i < h.len() && (#[trigger] h[i]).0 == k;
        assert(r[i]@ == h[i]);
    }
}

/// Where the query and every line are already in lowercase form, each line
/// that a case-sensitive search returns is returned by a case-insensitive
/// search too.
pub proof fn law_case_insensitive_covers_lowercase(
    query: Seq<char>,
    contents: Seq<char>,
    exact: Seq<SearchResult>,
    folded: Seq<SearchResult>,
)
    requires
        lower_of(query) == query,
        forall|k: int|
            0 <= k < lines_of(contents).len() ==> lower_of(#[trigger] lines_of(contents)[k])
                == lines_of(contents)[k],
        results_are(exact, search_spec(query, contents, false)),
        results_are(folded, search_spec(query, contents, true)),
    ensures
        forall|i: int| 0 <= i < exact.len() ==> has_lineno(folded, #[trigger] exact[i].lineno as int),
{
    let ls = lines_of(contents);
    law_search_results_contain_query(query, contents, exact);
    assert forall|i: int| 0 <= i < exact.len() implies has_lineno(
        folded,
        #[trigger] exact[i].lineno as int,
    ) by {
        let k = exact[i].lineno as int;
        assert(lower_of(ls[k]) == ls[k]);
        law_case_insensitive_matches(query, contents, folded, k);
    }
}

/// Two searches of the same contents for the same query, in the same mode,
/// give the same results in the same order.
pub proof fn law_search_deterministic(
    query: Seq<char>,
    contents: Seq<char>,
    fold: bool,
    first: Seq<SearchResult>,
    second: Seq<SearchResult>,
)
    requires
        results_are(first, search_spec(query, contents, fold)),
        results_are(second, search_spec(query, contents, fold)),
    ensures
        first.len() == second.len(),
        forall|i: int| 0 <= i < first.len() ==> (#[trigger] first[i])@ == second[i]@,
{
}

/// Empty contents give no results, whatever the query and the mode.
pub proof fn law_empty_contents(query: Seq<char>, fold: bool)
    ensures
        search_spec(query, Seq::<char>::empty(), fold).len() == 0,
{
    let p = crate::lines::pieces(Seq::<char>::empty());
    assert(p == seq![Seq::<char>::empty()]);
    assert(lines_of(Seq::<char>::empty()).len() == 0);
}

/// Where every line of `ls` is a match, `hits` holds each line under its index.
pub(crate) proof fn lemma_hits_all(ls: Seq<Seq<char>>, q: Seq<char>, fold: bool)
    requires
        forall|k: int| 0 <= k < ls.len() ==> line_matches(#[trigger] ls[k], q, fold),
    ensures
        hits(ls, q, fold) =~= Seq::new(ls.len(), |k: int| (k, ls[k])),
    decreases ls.len(),
{
    if ls.len() > 0 {
        let init = ls.drop_last();
        assert forall|k: int| 0 <= k < init.len() implies line_matches(#[trigger] init[k], q, fold) by {
            assert(init[k] == ls[k]);
        }
        lemma_hits_all(init, q, fold);
        assert(line_matches(ls[ls.len() - 1], q, fold));
    }
}

/// The empty text occurs in every text.
pub proof fn lemma_empty_occurs(s: Seq<char>)
    ensures
        has_substring(s, Seq::<char>::empty()),
{
    let e = Seq::<char>::empty();
    let z: int = 0;
    assert(s.subrange(z, z + e.len()) =~= e);
}

/// The empty query matches every line in a case-sensitive search: line `k` is
/// result `k`.
pub proof fn law_empty_query(contents: Seq<char>)
    ensures
        search_spec(Seq::<char>::empty(), contents, false) == all_lines(contents),
{
    let ls = lines_of(contents);
    assert forall|k: int| 0 <= k < ls.len() implies line_matches(
        #[trigger] ls[k],
        Seq::<char>::empty(),
        false,
    ) by {
        lemma_empty_occurs(ls[k]);
    }
    lemma_hits_all(ls, Seq::<char>::empty(), false);
}

} // verus!
