//! The tiered catalog matcher: match predicates and the tier ladder.

use vstd::prelude::*;
use crate::strings::{
    is_space, is_space_char, is_prefix_of, occurs_at, contains_seq, chars_of, starts_with_chars,
    contains_chars, occurs_at_exec, lower_of, lowercase,
};
use crate::model::{AppEntry, AppType, ResultKind, ResultView, SearchResultData, UsageStats,
    rows_view};
use crate::rank::{rank_of, cands_view, insert_cand, lemma_rank_of_props};

verus! {

/// The characters of `p` occur in `t` in order, greedily matched: scanning
/// `t` once and advancing over `p` at every equal character succeeds exactly
/// when `p` is a subsequence of `t`.
pub open spec fn subsequence_of(p: Seq<char>, t: Seq<char>) -> bool
    decreases t.len(),
{
    if p.len() == 0 {
        true
    } else if t.len() == 0 {
        false
    } else if t[0] == p[0] {
        subsequence_of(p.skip(1), t.skip(1))
    } else {
        subsequence_of(p, t.skip(1))
    }
}

/// Whether the characters of `pattern` appear in `text` in the same order,
/// not necessarily contiguously.
pub fn is_subsequence(pattern: &str, text: &str) -> (r: bool)
    ensures
        r == subsequence_of(pattern@, text@),
{
    let p = chars_of(pattern);
    let t = chars_of(text);
    is_subsequence_chars(&p, &t)
}

/// Single left-to-right pass with a cursor into the pattern.
pub fn is_subsequence_chars(p: &Vec<char>, t: &Vec<char>) -> (r: bool)
    ensures
        r == subsequence_of(p@, t@),
{
    let mut ci: usize = 0;
    let mut i: usize = 0;
    proof {
        assert(p@.skip(0) =~= p@);
        assert(t@.skip(0) =~= t@);
    }
    while i < t.len()
        invariant
            ci <= p@.len(),
            i <= t@.len(),
            subsequence_of(p@, t@) == subsequence_of(p@.skip(ci as int), t@.skip(i as int)),
        decreases t@.len() - i,
    {
        if ci == p.len() {
            return true;
        }
        proof {
            assert(t@.skip(i as int)[0] == t@[i as int]);
            assert(p@.skip(ci as int)[0] == p@[ci as int]);
            assert(t@.skip(i as int).skip(1) =~= t@.skip(i + 1));
            assert(p@.skip(ci as int).skip(1) =~= p@.skip(ci + 1));
        }
        if t[i] == p[ci] {
            ci += 1;
        }
        i += 1;
    }
    ci == p.len()
}

/// `idxs` picks strictly increasing positions of `t` that spell out `p`:
/// the standard meaning of "the characters of `p` occur in `t` in order".
pub open spec fn embeds_at(p: Seq<char>, t: Seq<char>, idxs: Seq<int>) -> bool {
    idxs.len() == p.len() && (forall|k: int|
        0 <= k < idxs.len() ==> 0 <= #[trigger] idxs[k] < t.len() && t[idxs[k]] == p[k]) && (
    forall|k: int| 0 < k < idxs.len() ==> idxs[k - 1] < #[trigger] idxs[k])
}

/// The greedy scan is sound and complete: it succeeds exactly when some
/// strictly increasing choice of positions embeds the pattern in the text.
pub proof fn lemma_subsequence_embedding(p: Seq<char>, t: Seq<char>)
    ensures
        subsequence_of(p, t) <==> exists|idxs: Seq<int>| embeds_at(p, t, idxs),
    decreases t.len(),
{
    if p.len() == 0 {
        let w = Seq::<int>::empty();
        assert(embeds_at(p, t, w));
    } else if t.len() == 0 {
        if exists|idxs: Seq<int>| embeds_at(p, t, idxs) {
            let idxs = choose|idxs: Seq<int>| embeds_at(p, t, idxs);
            assert(0 <= idxs[0] < t.len());
        }
    } else {
        lemma_subsequence_embedding(p.skip(1), t.skip(1));
        lemma_subsequence_embedding(p, t.skip(1));
        if t[0] == p[0] {
            if subsequence_of(p, t) {
                let sub = choose|idxs: Seq<int>| embeds_at(p.skip(1), t.skip(1), idxs);
                let w = seq![0int] + sub.map_values(|x: int| x + 1);
                assert forall|k: int| 0 <= k < w.len() implies 0 <= #[trigger] w[k] < t.len()
                    && t[w[k]] == p[k] by {
                    if k > 0 {
                        assert(w[k] == sub[k - 1] + 1);
                        assert(t.skip(1)[sub[k - 1]] == p.skip(1)[k - 1]);
                    }
                }
                assert forall|k: int| 0 < k < w.len() implies w[k - 1] < #[trigger] w[k] by {
                    if k > 1 {
                        assert(sub[k - 2] < sub[k - 1]);
                    }
                }
                assert(embeds_at(p, t, w));
            }
            if exists|idxs: Seq<int>| embeds_at(p, t, idxs) {
                let idxs = choose|idxs: Seq<int>| embeds_at(p, t, idxs);
                let down = idxs.skip(1).map_values(|x: int| x - 1);
                assert forall|k: int| 0 <= k < down.len() implies 0 <= #[trigger] down[k] < t.skip(
                    1,
                ).len() && t.skip(1)[down[k]] == p.skip(1)[k] by {
                    assert(down[k] == idxs[k + 1] - 1);
                    if k == 0 {
                        assert(idxs[0] < idxs[1]);
                        assert(idxs[1] >= 1);
                    } else {
                        assert(idxs[k] < idxs[k + 1]);
                        assert(down[k - 1] < down[k]);
                    }
                    assert(t[idxs[k + 1]] == p[k + 1]);
                }
                assert forall|k: int| 0 < k < down.len() implies down[k - 1] < #[trigger] down[k]
                    by {
                    assert(idxs[k] < idxs[k + 1]);
                }
                assert(embeds_at(p.skip(1), t.skip(1), down));
                assert(subsequence_of(p.skip(1), t.skip(1)));
            }
        } else {
            if subsequence_of(p, t) {
                let sub = choose|idxs: Seq<int>| embeds_at(p, t.skip(1), idxs);
                let w = sub.map_values(|x: int| x + 1);
                assert forall|k: int| 0 <= k < w.len() implies 0 <= #[trigger] w[k] < t.len()
                    && t[w[k]] == p[k] by {
                    assert(w[k] == sub[k] + 1);
                    assert(t.skip(1)[sub[k]] == p[k]);
                }
                assert forall|k: int| 0 < k < w.len() implies w[k - 1] < #[trigger] w[k] by {
                    assert(sub[k - 1] < sub[k]);
                }
                assert(embeds_at(p, t, w));
            }
            if exists|idxs: Seq<int>| embeds_at(p, t, idxs) {
                let idxs = choose|idxs: Seq<int>| embeds_at(p, t, idxs);
                assert(t[idxs[0]] == p[0]);
                assert(idxs[0] != 0);
                let down = idxs.map_values(|x: int| x - 1);
                assert forall|k: int| 0 <= k < down.len() implies 0 <= #[trigger] down[k] < t.skip(
                    1,
                ).len() && t.skip(1)[down[k]] == p[k] by {
                    assert(down[k] == idxs[k] - 1);
                    if k > 0 {
                        assert(idxs[k - 1] < idxs[k]);
                        assert(down[k - 1] < down[k]);
                        assert(idxs[k] >= 1);
                    }
                    assert(t[idxs[k]] == p[k]);
                }
                assert forall|k: int| 0 < k < down.len() implies down[k - 1] < #[trigger] down[k]
                    by {
                    assert(idxs[k - 1] < idxs[k]);
                }
                assert(embeds_at(p, t.skip(1), down));
                assert(subsequence_of(p, t.skip(1)));
            }
        }
    }
}

/// A contiguous occurrence embeds at consecutive positions, so every
/// substring match is also a subsequence match.
pub proof fn lemma_substring_is_subsequence(q: Seq<char>, s: Seq<char>)
    requires
        contains_seq(s, q),
    ensures
        subsequence_of(q, s),
{
    let i = choose|i: int| occurs_at(s, q, i);
    let w = Seq::new(q.len(), |k: int| i + k);
    assert forall|k: int| 0 <= k < w.len() implies 0 <= #[trigger] w[k] < s.len() && s[w[k]]
        == q[k] by {
        assert(s.subrange(i, i + q.len())[k] == s[i + k]);
    }
    assert(embeds_at(q, s, w));
    lemma_subsequence_embedding(q, s);
}

/// The substring tier stands below the subsequence tier, whose test is a
/// weaker condition: no entry ever reaches it.
pub proof fn lemma_substring_tier_unreachable(q: Seq<char>, nl: Seq<char>)
    ensures
        tier_of(q, nl) != Some(5int),
{
    if contains_seq(nl, q) {
        lemma_substring_is_subsequence(q, nl);
    }
}

/// No whitespace anywhere in `q`.
pub open spec fn no_space(q: Seq<char>) -> bool {
    forall|k: int| 0 <= k < q.len() ==> !is_space(q[k])
}

/// Position `i` starts a whitespace-delimited word of `s`.
pub open spec fn word_start_at(s: Seq<char>, i: int) -> bool {
    0 <= i < s.len() && !is_space(s[i]) && (i == 0 || is_space(s[i - 1]))
}

/// Some whitespace-delimited word of `s` starts with `q`. A query that
/// contains whitespace fits in no single word.
pub open spec fn word_prefix_match(s: Seq<char>, q: Seq<char>) -> bool {
    no_space(q) && exists|i: int| word_start_at(s, i) && occurs_at(s, q, i)
}

/// Whether some word of `s` starts with `q`.
pub fn word_prefix_exec(s: &Vec<char>, q: &Vec<char>) -> (r: bool)
    ensures
        r == word_prefix_match(s@, q@),
{
    let mut k: usize = 0;
    while k < q.len()
        invariant
            k <= q@.len(),
            forall|j: int| 0 <= j < k ==> !is_space(q@[j]),
        decreases q@.len() - k,
    {
        if is_space_char(q[k]) {
            return false;
        }
        k += 1;
    }
    let mut i: usize = 0;
    while i < s.len()
        invariant
            no_space(q@),
            i <= s@.len(),
            forall|j: int| 0 <= j < i ==> !(word_start_at(s@, j) && occurs_at(s@, q@, j)),
        decreases s@.len() - i,
    {
        let starts: bool = !is_space_char(s[i]) && (i == 0 || is_space_char(s[i - 1]));
        if starts && q.len() <= s.len() - i {
            if occurs_at_exec(s, q, i) {
                proof {
                    assert(word_start_at(s@, i as int));
                    assert(word_prefix_match(s@, q@));
                }
                return true;
            }
        }
        proof {
            if word_start_at(s@, i as int) && occurs_at(s@, q@, i as int) {
                assert(i + q@.len() <= s@.len());
            }
        }
        i += 1;
    }
    false
}

/// The first character of each whitespace-delimited word of `s`;
/// `in_word` records whether the scan stands inside a word.
pub open spec fn initials_rec(s: Seq<char>, in_word: bool) -> Seq<char>
    decreases s.len(),
{
    if s.len() == 0 {
        Seq::empty()
    } else if is_space(s[0]) {
        initials_rec(s.skip(1), false)
    } else if in_word {
        initials_rec(s.skip(1), true)
    } else {
        seq![s[0]] + initials_rec(s.skip(1), true)
    }
}

/// The initials of `s`: first character of each word, concatenated.
pub open spec fn initials_of(s: Seq<char>) -> Seq<char> {
    initials_rec(s, false)
}

/// Collect the first character of every word.
pub fn initials_exec(s: &Vec<char>) -> (r: Vec<char>)
    ensures
        r@ == initials_of(s@),
{
    let mut r: Vec<char> = Vec::new();
    let mut in_word: bool = false;
    let mut i: usize = 0;
    proof {
        assert(s@.skip(0) =~= s@);
    }
    while i < s.len()
        invariant
            i <= s@.len(),
            initials_of(s@) == r@ + initials_rec(s@.skip(i as int), in_word),
        decreases s@.len() - i,
    {
        proof {
            assert(s@.skip(i as int)[0] == s@[i as int]);
            assert(s@.skip(i as int).skip(1) =~= s@.skip(i + 1));
        }
        let ghost pre = r@;
        if is_space_char(s[i]) {
            in_word = false;
        } else if !in_word {
            r.push(s[i]);
            in_word = true;
            proof {
                assert(pre + (seq![s@[i as int]] + initials_rec(s@.skip(i + 1), true)) =~= r@
                    + initials_rec(s@.skip(i + 1), true));
            }
        }
        i += 1;
    }
    proof {
        assert(initials_rec(s@.skip(i as int), in_word) =~= Seq::<char>::empty());
        assert(r@ + Seq::<char>::empty() =~= r@);
    }
    r
}

/// The tier ladder of the matcher, evaluated top to bottom on the lowercased
/// name `nl` and the lowercased query `q`; the first tier that holds wins.
pub open spec fn tier_of(q: Seq<char>, nl: Seq<char>) -> Option<int> {
    if is_prefix_of(q, nl) {
        Some(1int)
    } else if word_prefix_match(nl, q) {
        Some(2int)
    } else if q.len() >= 2 && is_prefix_of(q, initials_of(nl)) {
        Some(3int)
    } else if subsequence_of(q, nl) {
        Some(4int)
    } else if contains_seq(nl, q) {
        Some(5int)
    } else {
        None
    }
}

/// The tier the entry name `nl` reaches for query `q`, or `None`.
pub fn tier_exec(q: &Vec<char>, nl: &Vec<char>) -> (t: Option<u8>)
    ensures
        match t {
            Some(v) => tier_of(q@, nl@) == Some(v as int),
            None => tier_of(q@, nl@) is None,
        },
{
    if starts_with_chars(nl, q) {
        return Some(1);
    }
    if word_prefix_exec(nl, q) {
        return Some(2);
    }
    if q.len() >= 2 {
        let ini = initials_exec(nl);
        if starts_with_chars(&ini, q) {
            return Some(3);
        }
    }
    if is_subsequence_chars(q, nl) {
        return Some(4);
    }
    if contains_chars(nl, q) {
        return Some(5);
    }
    None
}

/// Whether the lowercased `name` starts with the lowercased `query`, or any
/// of its whitespace-delimited words does.
pub fn starts_with_match(name: &str, query: &str) -> (r: bool)
    ensures
        r == (is_prefix_of(lower_of(query@), lower_of(name@)) || word_prefix_match(
            lower_of(name@),
            lower_of(query@),
        )),
{
    let nl = lowercase(name);
    let ql = lowercase(query);
    let nc = chars_of(nl.as_str());
    let qc = chars_of(ql.as_str());
    if starts_with_chars(&nc, &qc) {
        return true;
    }
    word_prefix_exec(&nc, &qc)
}

/// Tiers one to three form the first group, four and five the second.
pub open spec fn in_first_group(t: Option<int>) -> bool {
    t == Some(1int) || t == Some(2int) || t == Some(3int)
}

/// Whether the tier falls in the second, fuzzy group.
pub open spec fn in_second_group(t: Option<int>) -> bool {
    t == Some(4int) || t == Some(5int)
}

/// The score an entry earns at its tier: a tier base, plus ten points per
/// recorded activation, and for exact prefixes a preference for short names.
pub open spec fn entry_score(q: Seq<char>, e: AppEntry, u: UsageStats) -> int {
    let t = tier_of(q, lower_of(e.name@))->Some_0;
    let mru = 10 * u.spec_score(e.name@);
    if t == 1 {
        1000 + mru + 100 - lower_of(e.name@).len()
    } else if t == 2 {
        800 + mru
    } else if t == 3 {
        700 + mru
    } else if t == 4 {
        300 + mru
    } else {
        200 + mru
    }
}

/// Per-entry scores of one group: `Some` exactly for the entries whose tier
/// falls in that group.
pub open spec fn group_scores(
    q: Seq<char>,
    cat: Seq<AppEntry>,
    u: UsageStats,
    first: bool,
) -> Seq<Option<int>> {
    Seq::new(
        cat.len(),
        |i: int|
            {
                let t = tier_of(q, lower_of(cat[i].name@));
                if (first && in_first_group(t)) || (!first && in_second_group(t)) {
                    Some(entry_score(q, cat[i], u))
                } else {
                    None
                }
            },
    )
}

/// The indices of a ranking, in emitted order.
pub open spec fn idx_of_cands(s: Seq<(int, int)>) -> Seq<int> {
    s.map_values(|p: (int, int)| p.0)
}

/// Catalog indices in final output order: the ranked first group, then the
/// ranked second group.
pub open spec fn ranked_indices(q: Seq<char>, cat: Seq<AppEntry>, u: UsageStats) -> Seq<int> {
    idx_of_cands(rank_of(group_scores(q, cat, u, true), cat.len() as int)) + idx_of_cands(
        rank_of(group_scores(q, cat, u, false), cat.len() as int),
    )
}

/// The result kind a catalog entry produces.
pub open spec fn kind_of(t: AppType) -> ResultKind {
    match t {
        AppType::DesktopApp => ResultKind::App,
        AppType::UwpApp => ResultKind::App,
        AppType::File => ResultKind::File,
    }
}

/// The result row a catalog entry produces.
pub open spec fn row_of(e: AppEntry) -> ResultView {
    ResultView {
        name: e.name@,
        description: e.description@,
        path: e.path@,
        result_type: kind_of(e.app_type),
    }
}

/// The rows for a sequence of catalog indices.
pub open spec fn rows_of_indices(cat: Seq<AppEntry>, idxs: Seq<int>) -> Seq<ResultView> {
    idxs.map_values(|i: int| row_of(cat[i]))
}

/// The catalog indices that survive the cap, in output order.
pub open spec fn capped_indices(
    raw_q: Seq<char>,
    cat: Seq<AppEntry>,
    u: UsageStats,
    max: int,
) -> Seq<int> {
    let ranked = ranked_indices(lower_of(raw_q), cat, u);
    if max < ranked.len() {
        ranked.take(max)
    } else {
        ranked
    }
}

/// What `match_catalog` returns: the ranked first group, then the ranked
/// second group, capped at `max` rows in all.
pub open spec fn catalog_results_spec(
    raw_q: Seq<char>,
    cat: Seq<AppEntry>,
    u: UsageStats,
    max: int,
) -> Seq<ResultView> {
    rows_of_indices(cat, capped_indices(raw_q, cat, u, max))
}

/// Build the result row for catalog entry `e`.
fn row_exec(e: &AppEntry) -> (r: SearchResultData)
    ensures
        r@ == row_of(*e),
{
    let kind = match e.app_type {
        AppType::DesktopApp => ResultKind::App,
        AppType::UwpApp => ResultKind::App,
        AppType::File => ResultKind::File,
    };
    SearchResultData {
        name: e.name.clone(),
        description: e.description.clone(),
        path: e.path.clone(),
        result_type: kind,
    }
}

/// Score catalog entries against the query, tier by tier, and emit the two
/// sorted groups in order, capped at `max_results` rows.
pub fn match_catalog(
    query: &str,
    catalog: &Vec<AppEntry>,
    usage: &UsageStats,
    max_results: usize,
) -> (res: Vec<SearchResultData>)
    ensures
        rows_view(res@) == catalog_results_spec(query@, catalog@, *usage, max_results as int),
{
    let ql = lowercase(query);
    let qc = chars_of(ql.as_str());
    let ghost q = lower_of(query@);
    let ghost g1 = group_scores(q, catalog@, *usage, true);
    let ghost g2 = group_scores(q, catalog@, *usage, false);
    let n = catalog.len();
    let mut t1: Vec<(usize, i128)> = Vec::new();
    let mut t2: Vec<(usize, i128)> = Vec::new();
    let mut i: usize = 0;
    while i < n
        invariant
            i <= n,
            n == catalog@.len(),
            qc@ == q,
            g1 == group_scores(q, catalog@, *usage, true),
            g2 == group_scores(q, catalog@, *usage, false),
            cands_view(t1@) == rank_of(g1, i as int),
            cands_view(t2@) == rank_of(g2, i as int),
        decreases n - i,
    {
        let nl = lowercase(catalog[i].name.as_str());
        let nc = chars_of(nl.as_str());
        proof {
            assert(nc@ == lower_of(catalog@[i as int].name@));
        }
        let t = tier_exec(&qc, &nc);
        let ghost spec_t = tier_of(q, lower_of(catalog@[i as int].name@));
        match t {
            Some(tv) => {
                let mru = usage.get_mru_score(catalog[i].name.as_str());
                let mru10: i128 = (mru as i128) * 10;
                let score: i128 = if tv == 1 {
                    1000 + mru10 + 100 - (nc.len() as i128)
                } else if tv == 2 {
                    800 + mru10
                } else if tv == 3 {
                    700 + mru10
                } else if tv == 4 {
                    300 + mru10
                } else {
                    200 + mru10
                };
                proof {
                    assert(score as int == entry_score(q, catalog@[i as int], *usage));
                }
                if tv <= 3 {
                    proof {
                        assert(in_first_group(spec_t));
                        assert(g1[i as int] == Some(entry_score(q, catalog@[i as int], *usage)));
                        assert(g2[i as int] is None);
                    }
                    insert_cand(&mut t1, i, score);
                } else {
                    proof {
                        assert(in_second_group(spec_t));
                        assert(g2[i as int] == Some(entry_score(q, catalog@[i as int], *usage)));
                        assert(g1[i as int] is None);
                    }
                    insert_cand(&mut t2, i, score);
                }
            },
            None => {
                proof {
                    assert(g1[i as int] is None);
                    assert(g2[i as int] is None);
                }
            },
        }
        i += 1;
    }
    let ghost r1 = rank_of(g1, n as int);
    let ghost r2 = rank_of(g2, n as int);
    let ghost ranked = ranked_indices(q, catalog@, *usage);
    let ghost full = rows_of_indices(catalog@, ranked);
    proof {
        lemma_rank_of_props(g1, n as int);
        lemma_rank_of_props(g2, n as int);
        assert(ranked =~= idx_of_cands(r1) + idx_of_cands(r2));
    }
    let mut res: Vec<SearchResultData> = Vec::new();
    let mut k: usize = 0;
    while k < t1.len() && k < max_results
        invariant
            n == catalog@.len(),
            cands_view(t1@) == r1,
            k <= t1@.len(),
            k <= max_results,
            res@.len() == k,
            ranked == idx_of_cands(r1) + idx_of_cands(r2),
            full == rows_of_indices(catalog@, ranked),
            forall|y: (int, int)| #[trigger]
                r1.contains(y) <==> (0 <= y.0 < n && g1[y.0] == Some(y.1)),
            rows_view(res@) =~= full.take(k as int),
        decreases t1@.len() - k,
    {
        let idx = t1[k].0;
        proof {
            assert(r1[k as int] == (idx as int, t1@[k as int].1 as int));
            assert(r1.contains(r1[k as int]));
            assert(0 <= idx < n);
            assert(ranked[k as int] == r1[k as int].0);
            assert(full[k as int] == row_of(catalog@[idx as int]));
        }
        let row = row_exec(&catalog[idx]);
        res.push(row);
        proof {
            assert(rows_view(res@) =~= full.take(k + 1));
        }
        k += 1;
    }
    let t1len = t1.len();
    let mut j: usize = 0;
    while j < t2.len() && k + j < max_results
        invariant
            n == catalog@.len(),
            cands_view(t1@) == r1,
            cands_view(t2@) == r2,
            t1len == t1@.len(),
            k <= t1len,
            k <= max_results,
            k == t1len || k == max_results,
            j <= t2@.len(),
            k + j <= max_results,
            res@.len() == k + j,
            ranked == idx_of_cands(r1) + idx_of_cands(r2),
            full == rows_of_indices(catalog@, ranked),
            forall|y: (int, int)| #[trigger]
                r2.contains(y) <==> (0 <= y.0 < n && g2[y.0] == Some(y.1)),
            rows_view(res@) =~= full.take(k + j),
            j > 0 ==> k == t1len,
        decreases t2@.len() - j,
    {
        if k < t1len {
            proof {
                assert(res@.len() < max_results);
                assert(k < max_results);
                assert(false);
            }
        }
        let idx = t2[j].0;
        proof {
            assert(r2[j as int] == (idx as int, t2@[j as int].1 as int));
            assert(r2.contains(r2[j as int]));
            assert(0 <= idx < n);
            assert(ranked[t1len + j] == r2[j as int].0);
            assert(full[t1len + j] == row_of(catalog@[idx as int]));
        }
        let row = row_exec(&catalog[idx]);
        res.push(row);
        proof {
            assert(rows_view(res@) =~= full.take(k + j + 1));
        }
        j += 1;
    }
    proof {
        assert(full.len() == ranked.len());
        assert(ranked.len() == r1.len() + r2.len());
        assert(t1@.len() == r1.len() && t2@.len() == r2.len());
        if res@.len() == max_results {
            assert(rows_view(res@) =~= full.take(max_results as int));
            if (max_results as int) < ranked.len() {
                assert(rows_of_indices(catalog@, ranked.take(max_results as int)) =~= full.take(
                    max_results as int,
                ));
            } else {
                assert(res@.len() <= full.len());
                assert(full.take(max_results as int) =~= full);
            }
        } else {
            assert(k == t1len && j == t2@.len());
            assert(res@.len() == ranked.len());
            assert(full.take(k + j) =~= full);
            assert(ranked.len() <= max_results as int);
        }
    }
    res
}

} // verus!
