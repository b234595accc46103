//! The result pipeline: classifier stages in order, then the catalog
//! matcher, with the system-action stage as a hard short-circuit.
//!
//! The public proof functions at the end state the ordering and capping
//! laws the pipeline guarantees.

use vstd::prelude::*;
use crate::model::{AppEntry, ResultKind, ResultView, SearchResultData, UsageStats, rows_view};
use crate::actions::{
    special_spec, calc_spec, web_spec, check_special_query, try_calculate, check_web_search,
};
use crate::matcher::{
    catalog_results_spec, capped_indices, ranked_indices, group_scores, tier_of, entry_score,
    in_first_group, in_second_group, match_catalog,
};
use crate::rank::{rank_of, lemma_rank_of_props, lemma_sorted_positions};
use crate::strings::lower_of;

verus! {

/// An optional stage contribution as a (possibly empty) row sequence.
pub open spec fn opt_rows(r: Option<ResultView>) -> Seq<ResultView> {
    match r {
        Some(v) => seq![v],
        None => Seq::empty(),
    }
}

/// What `search` returns: the single system-action row when that stage
/// fires; otherwise the calculator and web affordance rows, if any, then
/// the capped catalog rows.
pub open spec fn search_spec(
    q: Seq<char>,
    cat: Seq<AppEntry>,
    u: UsageStats,
    max: int,
) -> Seq<ResultView> {
    match special_spec(q) {
        Some(row) => seq![row],
        None => opt_rows(calc_spec(q)) + opt_rows(web_spec(q)) + catalog_results_spec(
            q,
            cat,
            u,
            max,
        ),
    }
}

/// Resolve a query into the ordered result list. Total: every failure of a
/// stage degrades to an empty contribution from that stage.
pub fn search(
    query: &str,
    catalog: &Vec<AppEntry>,
    usage: &UsageStats,
    max_results: usize,
) -> (res: Vec<SearchResultData>)
    ensures
        rows_view(res@) == search_spec(query@, catalog@, *usage, max_results as int),
{
    let mut results: Vec<SearchResultData> = Vec::new();
    match check_special_query(query) {
        Some(action) => {
            results.push(action);
            proof {
                assert(rows_view(results@) =~= search_spec(
                    query@,
                    catalog@,
                    *usage,
                    max_results as int,
                ));
            }
            return results;
        },
        None => {},
    }
    match try_calculate(query) {
        Some(calc) => {
            results.push(calc);
        },
        None => {},
    }
    proof {
        assert(rows_view(results@) =~= opt_rows(calc_spec(query@)));
    }
    match check_web_search(query) {
        Some(web) => {
            results.push(web);
        },
        None => {},
    }
    proof {
        assert(rows_view(results@) =~= opt_rows(calc_spec(query@)) + opt_rows(web_spec(query@)));
    }
    let mut catalog_rows = match_catalog(query, catalog, usage, max_results);
    let ghost head = results@;
    let ghost tail = catalog_rows@;
    results.append(&mut catalog_rows);
    proof {
        assert(rows_view(results@) =~= rows_view(head) + rows_view(tail));
        assert(rows_view(results@) =~= search_spec(query@, catalog@, *usage, max_results as int));
    }
    results
}

/// How many rows of a result list are catalog rows (applications or files).
pub open spec fn catalog_row_count(s: Seq<ResultView>) -> int
    decreases s.len(),
{
    if s.len() == 0 {
        0
    } else {
        (if s[0].result_type == ResultKind::App || s[0].result_type == ResultKind::File {
            1int
        } else {
            0int
        }) + catalog_row_count(s.skip(1))
    }
}

proof fn lemma_count_le_len(s: Seq<ResultView>)
    ensures
        0 <= catalog_row_count(s) <= s.len(),
    decreases s.len(),
{
    if s.len() > 0 {
        lemma_count_le_len(s.skip(1));
    }
}

proof fn lemma_count_concat(a: Seq<ResultView>, b: Seq<ResultView>)
    ensures
        catalog_row_count(a + b) == catalog_row_count(a) + catalog_row_count(b),
    decreases a.len(),
{
    if a.len() == 0 {
        assert(a + b =~= b);
    } else {
        assert((a + b).skip(1) =~= a.skip(1) + b);
        assert((a + b)[0] == a[0]);
        lemma_count_concat(a.skip(1), b);
    }
}

/// For every query, catalog and usage store: the application/file portion
/// of the search output never exceeds `max_results`.
pub proof fn lemma_catalog_portion_capped(
    q: Seq<char>,
    cat: Seq<AppEntry>,
    u: UsageStats,
    max: int,
)
    requires
        0 <= max,
    ensures
        catalog_row_count(search_spec(q, cat, u, max)) <= max,
{
    match special_spec(q) {
        Some(row) => {
            assert(row.result_type == ResultKind::Action);
            assert(search_spec(q, cat, u, max) =~= seq![row]);
            assert(search_spec(q, cat, u, max).skip(1) =~= Seq::<ResultView>::empty());
            assert(catalog_row_count(Seq::<ResultView>::empty()) == 0);
            assert(catalog_row_count(search_spec(q, cat, u, max).skip(1)) == 0);
        },
        None => {
            let a = opt_rows(calc_spec(q));
            let b = opt_rows(web_spec(q));
            let c = catalog_results_spec(q, cat, u, max);
            lemma_count_concat(a, b + c);
            lemma_count_concat(b, c);
            assert(a + b + c =~= a + (b + c));
            assert(catalog_row_count(a) == 0) by {
                match calc_spec(q) {
                    Some(r) => {
                        assert(r.result_type == ResultKind::Calc);
                        assert(a =~= seq![r]);
                        assert(a[0] == r && a.len() == 1);
                        assert(a.skip(1) =~= Seq::<ResultView>::empty());
                        assert(catalog_row_count(Seq::<ResultView>::empty()) == 0);
                        assert(catalog_row_count(a.skip(1)) == 0);
                    },
                    None => {},
                }
            }
            assert(catalog_row_count(b) == 0) by {
                match web_spec(q) {
                    Some(r) => {
                        assert(r.result_type == ResultKind::Web);
                        assert(b =~= seq![r]);
                        assert(b[0] == r && b.len() == 1);
                        assert(b.skip(1) =~= Seq::<ResultView>::empty());
                        assert(catalog_row_count(Seq::<ResultView>::empty()) == 0);
                        assert(catalog_row_count(b.skip(1)) == 0);
                    },
                    None => {},
                }
            }
            lemma_count_le_len(c);
            assert(c.len() <= max) by {
                let ranked = ranked_indices(lower_of(q), cat, u);
                if max < ranked.len() {
                    assert(capped_indices(q, cat, u, max).len() == max);
                }
            }
        },
    }
}

/// With the catalog and usage store unchanged, two searches for the same
/// query yield identical ordered output: the result is a function of the
/// three inputs alone.
pub proof fn lemma_search_idempotent(
    q: Seq<char>,
    cat: Seq<AppEntry>,
    u: UsageStats,
    max: int,
    r1: Seq<ResultView>,
    r2: Seq<ResultView>,
)
    requires
        r1 == search_spec(q, cat, u, max),
        r2 == search_spec(q, cat, u, max),
    ensures
        r1 == r2,
{
}

/// The tier group a catalog position belongs to, and its score, are fixed
/// by the ranking: inside the emitted index sequence, every position below
/// the first-group length carries a first-group entry and every later
/// position a second-group entry.
proof fn lemma_ranked_groups(q_low: Seq<char>, cat: Seq<AppEntry>, u: UsageStats, k: int)
    requires
        0 <= k < ranked_indices(q_low, cat, u).len(),
    ensures
        0 <= ranked_indices(q_low, cat, u)[k] < cat.len(),
        k < rank_of(group_scores(q_low, cat, u, true), cat.len() as int).len() ==> in_first_group(
            tier_of(q_low, lower_of(cat[ranked_indices(q_low, cat, u)[k]].name@)),
        ),
        k >= rank_of(group_scores(q_low, cat, u, true), cat.len() as int).len() ==> in_second_group(
            tier_of(q_low, lower_of(cat[ranked_indices(q_low, cat, u)[k]].name@)),
        ),
{
    let n = cat.len() as int;
    let g1 = group_scores(q_low, cat, u, true);
    let g2 = group_scores(q_low, cat, u, false);
    let r1 = rank_of(g1, n);
    let r2 = rank_of(g2, n);
    lemma_rank_of_props(g1, n);
    lemma_rank_of_props(g2, n);
    let ranked = ranked_indices(q_low, cat, u);
    assert(ranked.len() == r1.len() + r2.len());
    if k < r1.len() {
        assert(ranked[k] == r1[k].0);
        assert(r1.contains(r1[k]));
        assert(g1[r1[k].0] == Some(r1[k].1));
    } else {
        assert(ranked[k] == r2[k - r1.len()].0);
        assert(r2.contains(r2[k - r1.len()]));
        assert(g2[r2[k - r1.len()].0] == Some(r2[k - r1.len()].1));
    }
}

/// Tier dominance: in the emitted catalog rows, a first-group candidate
/// (exact prefix, word prefix or initials) never stands after a
/// second-group candidate (subsequence or substring), whatever the usage
/// bonuses are.
pub proof fn lemma_tier_dominance(
    q: Seq<char>,
    cat: Seq<AppEntry>,
    u: UsageStats,
    max: int,
    i: int,
    j: int,
)
    requires
        0 <= max,
        0 <= i < j < capped_indices(q, cat, u, max).len(),
        in_second_group(tier_of(lower_of(q), lower_of(cat[capped_indices(q, cat, u, max)[i]].name@))),
    ensures
        !in_first_group(tier_of(lower_of(q), lower_of(cat[capped_indices(q, cat, u, max)[j]].name@))),
{
    let q_low = lower_of(q);
    let capped = capped_indices(q, cat, u, max);
    let ranked = ranked_indices(q_low, cat, u);
    assert(capped[i] == ranked[i] && capped[j] == ranked[j]);
    lemma_ranked_groups(q_low, cat, u, i);
    lemma_ranked_groups(q_low, cat, u, j);
    let r1len = rank_of(group_scores(q_low, cat, u, true), cat.len() as int).len() as int;
    if i < r1len {
        assert(in_first_group(tier_of(q_low, lower_of(cat[ranked[i]].name@))));
        assert(false);
    }
}

/// Of two entries that both match the query as an exact name prefix with
/// names of equal length, the one with the higher usage count ranks
/// strictly first among the emitted catalog rows.
pub proof fn lemma_usage_orders_equal_prefixes(
    q: Seq<char>,
    cat: Seq<AppEntry>,
    u: UsageStats,
    max: int,
    i: int,
    j: int,
)
    requires
        0 <= max,
        0 <= i < capped_indices(q, cat, u, max).len(),
        0 <= j < capped_indices(q, cat, u, max).len(),
        tier_of(lower_of(q), lower_of(cat[capped_indices(q, cat, u, max)[i]].name@)) == Some(1int),
        tier_of(lower_of(q), lower_of(cat[capped_indices(q, cat, u, max)[j]].name@)) == Some(1int),
        lower_of(cat[capped_indices(q, cat, u, max)[i]].name@).len() == lower_of(
            cat[capped_indices(q, cat, u, max)[j]].name@,
        ).len(),
        u.spec_score(cat[capped_indices(q, cat, u, max)[i]].name@) > u.spec_score(
            cat[capped_indices(q, cat, u, max)[j]].name@,
        ),
    ensures
        i < j,
{
    let q_low = lower_of(q);
    let capped = capped_indices(q, cat, u, max);
    let ranked = ranked_indices(q_low, cat, u);
    let n = cat.len() as int;
    let g1 = group_scores(q_low, cat, u, true);
    let r1 = rank_of(g1, n);
    lemma_rank_of_props(g1, n);
    lemma_ranked_groups(q_low, cat, u, i);
    lemma_ranked_groups(q_low, cat, u, j);
    assert(capped[i] == ranked[i] && capped[j] == ranked[j]);
    let a = ranked[i];
    let b = ranked[j];
    assert(i < r1.len()) by {
        if i >= r1.len() {
            assert(in_second_group(tier_of(q_low, lower_of(cat[a].name@))));
        }
    }
    assert(j < r1.len()) by {
        if j >= r1.len() {
            assert(in_second_group(tier_of(q_low, lower_of(cat[b].name@))));
        }
    }
    assert(ranked[i] == r1[i].0 && ranked[j] == r1[j].0);
    assert(r1.contains(r1[i]) && r1.contains(r1[j]));
    assert(g1[a] == Some(r1[i].1) && g1[b] == Some(r1[j].1));
    assert(r1[i].1 == entry_score(q_low, cat[a], u));
    assert(r1[j].1 == entry_score(q_low, cat[b], u));
    assert(r1[i].1 > r1[j].1);
    lemma_sorted_positions(r1, i, j);
}

} // verus!
