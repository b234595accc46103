//! Stable, score-descending ranking of match candidates.
//!
//! A candidate is a pair `(catalog index, score)`. Candidates are kept in a
//! sequence ordered by score descending; candidates with equal scores keep
//! the order in which they were inserted, which is catalog order, so the
//! resulting sequence is ordered by score descending with ties broken by
//! index ascending — exactly what a stable descending sort produces.

use vstd::prelude::*;

verus! {

/// Ordered by score descending, ties broken by catalog index ascending.
pub open spec fn sorted_desc(s: Seq<(int, int)>) -> bool {
    forall|i: int, j: int|
        0 <= i < j < s.len() ==> (s[i].1 > s[j].1 || (s[i].1 == s[j].1 && s[i].0 < s[j].0))
}

/// Insert `x` after every candidate whose score is at least `x`'s.
pub open spec fn insert_desc(s: Seq<(int, int)>, x: (int, int)) -> Seq<(int, int)>
    decreases s.len(),
{
    if s.len() == 0 {
        seq![x]
    } else if s[0].1 >= x.1 {
        seq![s[0]] + insert_desc(s.skip(1), x)
    } else {
        seq![x] + s
    }
}

/// The ranking of the first `n` candidates of `scores`: each index whose
/// score is present, inserted in index order.
pub open spec fn rank_of(scores: Seq<Option<int>>, n: int) -> Seq<(int, int)>
    decreases n,
{
    if n <= 0 {
        Seq::empty()
    } else {
        let prev = rank_of(scores, n - 1);
        match scores[n - 1] {
            Some(sc) => insert_desc(prev, (n - 1, sc)),
            None => prev,
        }
    }
}

pub proof fn lemma_insert_desc_contains(s: Seq<(int, int)>, x: (int, int), y: (int, int))
    ensures
        insert_desc(s, x).contains(y) <==> (s.contains(y) || y == x),
    decreases s.len(),
{
    if s.len() == 0 {
        assert(insert_desc(s, x)[0] == x);
        if insert_desc(s, x).contains(y) {
            let k = choose|k: int| 0 <= k < insert_desc(s, x).len() && insert_desc(s, x)[k] == y;
            assert(k == 0);
        }
    } else if s[0].1 >= x.1 {
        lemma_insert_desc_contains(s.skip(1), x, y);
        let t = seq![s[0]] + insert_desc(s.skip(1), x);
        if s.contains(y) {
            let k = choose|k: int| 0 <= k < s.len() && s[k] == y;
            if k == 0 {
                assert(t[0] == y);
            } else {
                assert(s.skip(1)[k - 1] == y);
                assert(s.skip(1).contains(y));
                let m = choose|m: int|
                    0 <= m < insert_desc(s.skip(1), x).len() && insert_desc(s.skip(1), x)[m] == y;
                assert(t[m + 1] == y);
            }
            assert(t.contains(y));
        }
        if y == x {
            let m = choose|m: int|
                0 <= m < insert_desc(s.skip(1), x).len() && insert_desc(s.skip(1), x)[m] == y;
            assert(t[m + 1] == y);
            assert(t.contains(y));
        }
        if t.contains(y) {
            let k = choose|k: int| 0 <= k < t.len() && t[k] == y;
            if k == 0 {
                assert(s[0] == y);
            } else {
                assert(insert_desc(s.skip(1), x)[k - 1] == y);
                assert(insert_desc(s.skip(1), x).contains(y));
                if s.skip(1).contains(y) {
                    let m = choose|m: int| 0 <= m < s.skip(1).len() && s.skip(1)[m] == y;
                    assert(s[m + 1] == y);
                }
            }
        }
    } else {
        let t = seq![x] + s;
        if s.contains(y) {
            let k = choose|k: int| 0 <= k < s.len() && s[k] == y;
            assert(t[k + 1] == y);
        }
        if y == x {
            assert(t[0] == y);
        }
        if t.contains(y) {
            let k = choose|k: int| 0 <= k < t.len() && t[k] == y;
            if k > 0 {
                assert(s[k - 1] == y);
            }
        }
    }
}

pub proof fn lemma_insert_desc_sorted(s: Seq<(int, int)>, x: (int, int))
    requires
        sorted_desc(s),
        forall|k: int| 0 <= k < s.len() ==> s[k].0 < x.0,
    ensures
        sorted_desc(insert_desc(s, x)),
    decreases s.len(),
{
    if s.len() == 0 {
    } else if s[0].1 >= x.1 {
        assert(sorted_desc(s.skip(1))) by {
            assert(forall|i: int, j: int|
                0 <= i < j < s.skip(1).len() ==> s.skip(1)[i] == s[i + 1] && s.skip(1)[j] == s[j
                    + 1]);
        }
        lemma_insert_desc_sorted(s.skip(1), x);
        let t = seq![s[0]] + insert_desc(s.skip(1), x);
        let rest = insert_desc(s.skip(1), x);
        assert forall|i: int, j: int| 0 <= i < j < t.len() implies (t[i].1 > t[j].1 || (t[i].1
            == t[j].1 && t[i].0 < t[j].0)) by {
            if i == 0 {
                assert(t[j] == rest[j - 1]);
                lemma_insert_desc_contains(s.skip(1), x, rest[j - 1]);
                assert(rest.contains(rest[j - 1]));
                if rest[j - 1] == x {
                    assert(s[0].1 >= x.1);
                    assert(s[0].0 < x.0);
                } else {
                    assert(s.skip(1).contains(rest[j - 1]));
                    let m = choose|m: int|
                        0 <= m < s.skip(1).len() && s.skip(1)[m] == rest[j - 1];
                    assert(s[m + 1] == rest[j - 1]);
                }
            } else {
                assert(t[i] == rest[i - 1]);
                assert(t[j] == rest[j - 1]);
            }
        }
    } else {
        let t = seq![x] + s;
        assert forall|i: int, j: int| 0 <= i < j < t.len() implies (t[i].1 > t[j].1 || (t[i].1
            == t[j].1 && t[i].0 < t[j].0)) by {
            if i == 0 {
                assert(t[j] == s[j - 1]);
                if j == 1 {
                    assert(x.1 > s[0].1);
                } else {
                    assert(s[0].1 > s[j - 1].1 || (s[0].1 == s[j - 1].1 && s[0].0 < s[j - 1].0));
                    assert(x.1 > s[j - 1].1);
                }
            } else {
                assert(t[i] == s[i - 1]);
                assert(t[j] == s[j - 1]);
            }
        }
    }
}

/// Everything `rank_of` holds: exactly the indices below `n` whose score is
/// present, each with that score, in sorted order.
pub proof fn lemma_rank_of_props(scores: Seq<Option<int>>, n: int)
    requires
        0 <= n <= scores.len(),
    ensures
        sorted_desc(rank_of(scores, n)),
        forall|y: (int, int)| #[trigger]
            rank_of(scores, n).contains(y) <==> (0 <= y.0 < n && scores[y.0] == Some(y.1)),
    decreases n,
{
    if n > 0 {
        lemma_rank_of_props(scores, n - 1);
        let prev = rank_of(scores, n - 1);
        match scores[n - 1] {
            Some(sc) => {
                assert forall|k: int| 0 <= k < prev.len() implies prev[k].0 < n - 1 by {
                    assert(prev.contains(prev[k]));
                }
                lemma_insert_desc_sorted(prev, (n - 1, sc));
                assert forall|y: (int, int)| #[trigger]
                    rank_of(scores, n).contains(y) <==> (0 <= y.0 < n && scores[y.0] == Some(
                        y.1,
                    )) by {
                    lemma_insert_desc_contains(prev, (n - 1, sc), y);
                }
            },
            None => {
                assert forall|y: (int, int)| #[trigger]
                    rank_of(scores, n).contains(y) <==> (0 <= y.0 < n && scores[y.0] == Some(
                        y.1,
                    )) by {
                    if 0 <= y.0 < n && scores[y.0] == Some(y.1) {
                        assert(y.0 != n - 1);
                    }
                }
            },
        }
    }
}

/// Where the sort of a bounded-index candidate set puts `x`: after all
/// candidates with a strictly greater score, and after those with an equal
/// score and a smaller index.
pub proof fn lemma_sorted_positions(s: Seq<(int, int)>, i: int, j: int)
    requires
        sorted_desc(s),
        0 <= i < s.len(),
        0 <= j < s.len(),
        s[i].1 > s[j].1 || (s[i].1 == s[j].1 && s[i].0 < s[j].0),
    ensures
        i < j,
{
    if i == j {
    } else if i > j {
        assert(s[j].1 > s[i].1 || (s[j].1 == s[i].1 && s[j].0 < s[i].0));
    }
}

/// The candidates as the executable code stores them.
pub open spec fn cands_view(s: Seq<(usize, i128)>) -> Seq<(int, int)> {
    s.map_values(|p: (usize, i128)| (p.0 as int, p.1 as int))
}

proof fn lemma_insert_desc_split(s: Seq<(int, int)>, x: (int, int), p: int)
    requires
        0 <= p <= s.len(),
        forall|k: int| 0 <= k < p ==> s[k].1 >= x.1,
        p == s.len() || s[p].1 < x.1,
    ensures
        insert_desc(s, x) =~= s.take(p) + seq![x] + s.skip(p),
    decreases p,
{
    if p == 0 {
        if s.len() == 0 {
            assert(insert_desc(s, x) =~= s.take(0) + seq![x] + s.skip(0));
        } else {
            assert(s[0].1 < x.1);
            assert(insert_desc(s, x) =~= seq![x] + s);
            assert(s.take(0) + seq![x] + s.skip(0) =~= seq![x] + s);
        }
    } else {
        assert(s[0].1 >= x.1);
        assert(forall|k: int| 0 <= k < p - 1 ==> s.skip(1)[k] == s[k + 1]);
        assert(p - 1 == s.skip(1).len() || s.skip(1)[p - 1].1 < x.1);
        lemma_insert_desc_split(s.skip(1), x, p - 1);
        assert(insert_desc(s, x) =~= seq![s[0]] + insert_desc(s.skip(1), x));
        assert(seq![s[0]] + (s.skip(1).take(p - 1) + seq![x] + s.skip(1).skip(p - 1)) =~= s.take(
            p,
        ) + seq![x] + s.skip(p));
    }
}

/// Insert a candidate into a ranking vector at its stable position.
pub fn insert_cand(v: &mut Vec<(usize, i128)>, idx: usize, score: i128)
    ensures
        cands_view(final(v)@) == insert_desc(cands_view(old(v)@), (idx as int, score as int)),
{
    let mut p: usize = 0;
    while p < v.len() && v[p as usize].1 >= score
        invariant
            p <= v@.len(),
            v == old(v),
            forall|k: int| 0 <= k < p ==> v@[k].1 >= score,
        decreases v@.len() - p,
    {
        p += 1;
    }
    let ghost pre = cands_view(v@);
    proof {
        assert(forall|k: int| 0 <= k < p ==> pre[k].1 >= score);
        assert(p == pre.len() || pre[p as int].1 < score);
        lemma_insert_desc_split(pre, (idx as int, score as int), p as int);
    }
    v.insert(p, (idx, score));
    proof {
        let post = cands_view(v@);
        assert(post =~= pre.take(p as int) + seq![(idx as int, score as int)] + pre.skip(p as int));
    }
}

} // verus!
