//! Score-threshold fuzzy search over the catalog, backed by an outside
//! fuzzy matcher.

use vstd::prelude::*;
use fuzzy_matcher::FuzzyMatcher;
use crate::model::{AppEntry, UsageStats};
use crate::rank::{rank_of, cands_view, insert_cand, lemma_rank_of_props};

verus! {

/// Tunable knobs of the fuzzy search.
pub struct SearchConfig {
    pub max_results: usize,
    pub min_score: i64,
    pub mru_bonus: i64,
}

impl Default for SearchConfig {
    /// Eight rows, a threshold of ten, ten points per recorded activation.
    fn default() -> (r: Self)
        ensures
            r.max_results == 8,
            r.min_score == 10,
            r.mru_bonus == 10,
    {
        SearchConfig { max_results: 8, min_score: 10, mru_bonus: 10 }
    }
}

/// What the skim fuzzy matcher scores a choice against a pattern, with the
/// matcher's default configuration; it depends on the two strings alone.
pub uninterp spec fn skim_score_of(choice: Seq<char>, pattern: Seq<char>) -> Option<i64>;

/// Relies on `SkimMatcherV2::fuzzy_match` from `fuzzy_matcher`, built with
/// the default configuration and smart case: the score is a deterministic
/// function of the choice and pattern strings (the caches it keeps are
/// buffers only).
#[verifier::external_body]
fn skim_match(choice: &str, pattern: &str) -> (r: Option<i64>)
    ensures
        r == skim_score_of(choice@, pattern@),
{
    let matcher = fuzzy_matcher::skim::SkimMatcherV2::default().smart_case();
    matcher.fuzzy_match(choice, pattern)
}

/// The score when a matcher found no match: zero.
pub open spec fn score_or_zero(r: Option<i64>) -> int {
    match r {
        Some(v) => v as int,
        None => 0,
    }
}

/// Truncating halving, as `/ 2` computes it on machine integers.
pub open spec fn div2_trunc(x: int) -> int {
    if x >= 0 {
        x / 2
    } else {
        -((-x) / 2)
    }
}

/// Clamp into the `i64` range.
pub open spec fn clamp_i64(x: int) -> int {
    if x > i64::MAX {
        i64::MAX as int
    } else if x < i64::MIN {
        i64::MIN as int
    } else {
        x
    }
}

/// The base score of an entry: the better of the name score and half the
/// description score.
pub open spec fn fuzzy_base(e: AppEntry, q: Seq<char>) -> int {
    let ns = score_or_zero(skim_score_of(e.name@, q));
    let ds = div2_trunc(score_or_zero(skim_score_of(e.description@, q)));
    if ns >= ds {
        ns
    } else {
        ds
    }
}

/// The final score: base plus the usage bonus, kept in the machine range.
pub open spec fn fuzzy_score(e: AppEntry, q: Seq<char>, u: UsageStats, bonus: int) -> int {
    clamp_i64(fuzzy_base(e, q) + u.spec_score(e.name@) * bonus)
}

/// Per-entry scores: present exactly for the entries over the threshold.
pub open spec fn fuzzy_scores(
    apps: Seq<AppEntry>,
    q: Seq<char>,
    u: UsageStats,
    config: SearchConfig,
) -> Seq<Option<int>> {
    Seq::new(
        apps.len(),
        |i: int|
            if fuzzy_base(apps[i], q) >= config.min_score {
                Some(fuzzy_score(apps[i], q, u, config.mru_bonus as int))
            } else {
                None
            },
    )
}

/// What `fuzzy_search` returns: the qualifying entries sorted by score
/// descending (ties in catalog order), truncated to `max_results`, each
/// with its score.
pub open spec fn fuzzy_spec(
    apps: Seq<AppEntry>,
    q: Seq<char>,
    u: UsageStats,
    config: SearchConfig,
) -> Seq<(AppEntry, int)> {
    let ranked = rank_of(fuzzy_scores(apps, q, u, config), apps.len() as int);
    let capped = if (config.max_results as int) < ranked.len() {
        ranked.take(config.max_results as int)
    } else {
        ranked
    };
    capped.map_values(|p: (int, int)| (apps[p.0], p.1))
}

impl Clone for AppEntry {
    /// A clone carries exactly the same field values.
    fn clone(&self) -> (r: Self)
        ensures
            r == *self,
    {
        let r = AppEntry {
            name: self.name.clone(),
            path: self.path.clone(),
            description: self.description.clone(),
            app_type: self.app_type,
        };
        proof {
            assert(r == *self);
        }
        r
    }
}

fn half_trunc(x: i64) -> (r: i64)
    ensures
        r == div2_trunc(x as int),
{
    if x >= 0 {
        ((x as u64) / 2) as i64
    } else {
        let m: u128 = (-(x as i128)) as u128;
        let h: u128 = m / 2;
        (-(h as i128)) as i64
    }
}

/// Rank every application against the query with the fuzzy matcher, apply
/// the usage bonus, and keep the best `max_results` over the threshold.
pub fn fuzzy_search(
    apps: &Vec<AppEntry>,
    query: &str,
    mru: &UsageStats,
    config: &SearchConfig,
) -> (r: Vec<(AppEntry, i64)>)
    ensures
        r@.map_values(|p: (AppEntry, i64)| (p.0, p.1 as int)) == fuzzy_spec(
            apps@,
            query@,
            *mru,
            *config,
        ),
{
    let ghost scores = fuzzy_scores(apps@, query@, *mru, *config);
    let n = apps.len();
    let mut cands: Vec<(usize, i128)> = Vec::new();
    let mut i: usize = 0;
    while i < n
        invariant
            i <= n,
            n == apps@.len(),
            scores == fuzzy_scores(apps@, query@, *mru, *config),
            cands_view(cands@) == rank_of(scores, i as int),
        decreases n - i,
    {
        let name_score = skim_match(apps[i].name.as_str(), query);
        let desc_score = skim_match(apps[i].description.as_str(), query);
        let ns: i64 = match name_score {
            Some(v) => v,
            None => 0,
        };
        let ds: i64 = half_trunc(
            match desc_score {
                Some(v) => v,
                None => 0,
            },
        );
        let base: i64 = if ns >= ds {
            ns
        } else {
            ds
        };
        proof {
            assert(base as int == fuzzy_base(apps@[i as int], query@));
        }
        if base >= config.min_score {
            let mru_count = mru.get_mru_score(apps[i].name.as_str());
            proof {
                assert((u32::MAX as int) * (i64::MIN as int) <= (mru_count as int) * (
                config.mru_bonus as int) <= (u32::MAX as int) * (i64::MAX as int))
                    by (nonlinear_arith)
                    requires
                        0 <= mru_count <= u32::MAX,
                        i64::MIN <= config.mru_bonus <= i64::MAX,
                ;
            }
            let wide: i128 = (base as i128) + (mru_count as i128) * (config.mru_bonus as i128);
            let clamped: i64 = if wide > i64::MAX as i128 {
                i64::MAX
            } else if wide < i64::MIN as i128 {
                i64::MIN
            } else {
                wide as i64
            };
            proof {
                assert(clamped as int == fuzzy_score(
                    apps@[i as int],
                    query@,
                    *mru,
                    config.mru_bonus as int,
                ));
                assert(scores[i as int] == Some(clamped as int));
            }
            insert_cand(&mut cands, i, clamped as i128);
        } else {
            proof {
                assert(scores[i as int] is None);
            }
        }
        i += 1;
    }
    let ghost ranked = rank_of(scores, n as int);
    proof {
        lemma_rank_of_props(scores, n as int);
    }
    let mut r: Vec<(AppEntry, i64)> = Vec::new();
    let mut k: usize = 0;
    while k < cands.len() && k < config.max_results
        invariant
            n == apps@.len(),
            scores == fuzzy_scores(apps@, query@, *mru, *config),
            ranked == rank_of(scores, n as int),
            cands_view(cands@) == ranked,
            k <= cands@.len(),
            k <= config.max_results,
            r@.len() == k,
            forall|y: (int, int)| #[trigger]
                ranked.contains(y) <==> (0 <= y.0 < n && scores[y.0] == Some(y.1)),
            forall|m: int|
                0 <= m < k ==> (#[trigger] r@[m].0 == apps@[ranked[m].0] && r@[m].1 as int
                    == ranked[m].1),
        decreases cands@.len() - k,
    {
        let idx = cands[k].0;
        let sc = cands[k].1;
        proof {
            assert(ranked[k as int] == (idx as int, sc as int));
            assert(ranked.contains(ranked[k as int]));
            assert(0 <= idx < n);
            assert(scores[idx as int] == Some(sc as int));
            assert(sc as int == fuzzy_score(
                apps@[idx as int],
                query@,
                *mru,
                config.mru_bonus as int,
            ));
            assert(i64::MIN <= sc <= i64::MAX);
        }
        let entry = apps[idx].clone();
        r.push((entry, sc as i64));
        k += 1;
    }
    proof {
        let expected = fuzzy_spec(apps@, query@, *mru, *config);
        let capped = if (config.max_results as int) < ranked.len() {
            ranked.take(config.max_results as int)
        } else {
            ranked
        };
        assert(r@.len() == capped.len());
        assert(r@.map_values(|p: (AppEntry, i64)| (p.0, p.1 as int)) =~= expected);
    }
    r
}

} // verus!
