//! Data model: catalog entries, usage statistics and search results.

use vstd::prelude::*;
use crate::strings::str_eq;

verus! {

/// What a catalog entry launches.
#[derive(Clone, Copy, Debug, PartialEq, Eq, Structural)]
pub enum AppType {
    DesktopApp,
    UwpApp,
    File,
}

impl AppType {
    /// The label the launcher shows for this entry type.
    pub fn label(&self) -> (r: &'static str)
        ensures
            *self == AppType::DesktopApp ==> r@ == "Desktop"@,
            *self == AppType::UwpApp ==> r@ == "UWP"@,
            *self == AppType::File ==> r@ == "File"@,
    {
        match self {
            AppType::DesktopApp => "Desktop",
            AppType::UwpApp => "UWP",
            AppType::File => "File",
        }
    }
}

/// One launchable target of the catalog.
#[derive(Debug)]
pub struct AppEntry {
    pub name: String,
    pub path: String,
    pub description: String,
    pub app_type: AppType,
}

/// The closed set of result categories.
#[derive(Clone, Copy, Debug, PartialEq, Eq, Structural)]
pub enum ResultKind {
    App,
    File,
    Calc,
    Web,
    Action,
    Info,
}

/// One row of the ordered result list handed back to the caller.
#[derive(Debug, PartialEq, Eq)]
pub struct SearchResultData {
    pub name: String,
    pub description: String,
    pub path: String,
    pub result_type: ResultKind,
}

/// The abstract value of a result row: its strings as character sequences.
pub struct ResultView {
    pub name: Seq<char>,
    pub description: Seq<char>,
    pub path: Seq<char>,
    pub result_type: ResultKind,
}

impl View for SearchResultData {
    type V = ResultView;

    open spec fn view(&self) -> ResultView {
        ResultView {
            name: self.name@,
            description: self.description@,
            path: self.path@,
            result_type: self.result_type,
        }
    }
}

/// The abstract values of a whole result list.
pub open spec fn rows_view(s: Seq<SearchResultData>) -> Seq<ResultView> {
    s.map_values(|r: SearchResultData| r@)
}

/// Usage counts per entry name, read by the matcher to personalise ranking
/// and incremented by the caller when a result is activated.
pub struct UsageStats {
    pub entries: Vec<(String, u32)>,
}

/// The count recorded for `name`: the first matching entry wins.
pub open spec fn usage_score(entries: Seq<(String, u32)>, name: Seq<char>) -> u32
    decreases entries.len(),
{
    if entries.len() == 0 {
        0
    } else if entries[0].0@ == name {
        entries[0].1
    } else {
        usage_score(entries.skip(1), name)
    }
}

proof fn lemma_usage_score_absent(entries: Seq<(String, u32)>, name: Seq<char>)
    requires
        forall|k: int| 0 <= k < entries.len() ==> entries[k].0@ != name,
    ensures
        usage_score(entries, name) == 0,
    decreases entries.len(),
{
    if entries.len() > 0 {
        lemma_usage_score_absent(entries.skip(1), name);
    }
}

proof fn lemma_usage_score_push(entries: Seq<(String, u32)>, name: Seq<char>, e: (String, u32))
    ensures
        usage_score(entries.push(e), name) == if usage_has(entries, name) {
            usage_score(entries, name)
        } else if e.0@ == name {
            e.1
        } else {
            0u32
        },
    decreases entries.len(),
{
    if entries.len() == 0 {
        assert(entries.push(e).skip(1) =~= Seq::<(String, u32)>::empty());
        assert(entries.push(e)[0] == e);
        assert(usage_score(entries.push(e).skip(1), name) == 0);
    } else {
        assert(entries.push(e)[0] == entries[0]);
        assert(entries.push(e).skip(1) =~= entries.skip(1).push(e));
        lemma_usage_score_push(entries.skip(1), name, e);
    }
}

/// Whether some entry carries `name`.
pub open spec fn usage_has(entries: Seq<(String, u32)>, name: Seq<char>) -> bool
    decreases entries.len(),
{
    if entries.len() == 0 {
        false
    } else if entries[0].0@ == name {
        true
    } else {
        usage_has(entries.skip(1), name)
    }
}

proof fn lemma_usage_score_update(
    pre: Seq<(String, u32)>,
    post: Seq<(String, u32)>,
    i: int,
    name: Seq<char>,
)
    requires
        0 <= i < pre.len(),
        post =~= pre.update(i, (pre[i].0, (pre[i].1 + 1) as u32)),
        pre[i].1 < u32::MAX,
        pre[i].0@ == name,
        forall|k: int| 0 <= k < i ==> pre[k].0@ != name,
    ensures
        usage_score(post, name) == usage_score(pre, name) + 1,
        forall|other: Seq<char>|
            other != name ==> usage_score(post, other) == usage_score(pre, other),
    decreases i,
{
    if i == 0 {
        assert(post[0].0@ == name);
        assert(post[0].1 == pre[0].1 + 1);
        assert forall|other: Seq<char>| other != name implies usage_score(post, other)
            == usage_score(pre, other) by {
            assert(post.skip(1) =~= pre.skip(1));
        }
        assert(post.skip(1) =~= pre.skip(1));
    } else {
        assert(post[0] == pre[0]);
        assert(post.skip(1) =~= pre.skip(1).update(i - 1, (pre[i].0, (pre[i].1 + 1) as u32)));
        assert(pre.skip(1)[i - 1] == pre[i]);
        lemma_usage_score_update(pre.skip(1), post.skip(1), i - 1, name);
        assert forall|other: Seq<char>| other != name implies usage_score(post, other)
            == usage_score(pre, other) by {
            if post[0].0@ == other {
            } else {
                assert(usage_score(post.skip(1), other) == usage_score(pre.skip(1), other));
            }
        }
    }
}

impl UsageStats {
    /// The count this store records for `name`.
    pub open spec fn spec_score(self, name: Seq<char>) -> u32 {
        usage_score(self.entries@, name)
    }

    /// An empty store: every name has count zero.
    pub fn new() -> (r: UsageStats)
        ensures
            r.entries@.len() == 0,
            forall|n: Seq<char>| r.spec_score(n) == 0,
    {
        UsageStats { entries: Vec::new() }
    }

    /// The usage count for `name`, zero when none was recorded.
    pub fn get_mru_score(&self, name: &str) -> (r: u32)
        ensures
            r == self.spec_score(name@),
    {
        let mut i: usize = 0;
        proof {
            assert(self.entries@.skip(0) =~= self.entries@);
        }
        while i < self.entries.len()
            invariant
                i <= self.entries@.len(),
                usage_score(self.entries@, name@) == usage_score(
                    self.entries@.skip(i as int),
                    name@,
                ),
            decreases self.entries@.len() - i,
        {
            proof {
                assert(self.entries@.skip(i as int)[0] == self.entries@[i as int]);
                assert(self.entries@.skip(i as int).skip(1) =~= self.entries@.skip(i + 1));
            }
            if str_eq(self.entries[i].0.as_str(), name) {
                return self.entries[i].1;
            }
            i += 1;
        }
        proof {
            assert(self.entries@.skip(i as int).len() == 0);
        }
        0
    }

    /// Record one more activation for `name`; other names keep their counts.
    /// A count already at the maximum stays there.
    pub fn record_usage(&mut self, name: &str)
        ensures
            final(self).spec_score(name@) == if old(self).spec_score(name@) < u32::MAX {
                old(self).spec_score(name@) + 1
            } else {
                old(self).spec_score(name@) as int
            },
            forall|other: Seq<char>|
                other != name@ ==> final(self).spec_score(other) == old(self).spec_score(other),
    {
        let n = self.entries.len();
        let mut i: usize = 0;
        while i < n
            invariant
                i <= n,
                n == self.entries@.len(),
                self == old(self),
                forall|k: int| 0 <= k < i ==> self.entries@[k].0@ != name@,
            decreases n - i,
        {
            if str_eq(self.entries[i].0.as_str(), name) {
                let c = self.entries[i].1;
                let ghost pre = self.entries@;
                if c < u32::MAX {
                    let pair = self.entries.remove(i);
                    self.entries.insert(i, (pair.0, c + 1));
                    proof {
                        assert(self.entries@ =~= pre.update(i as int, (pre[i as int].0, (c
                            + 1) as u32)));
                        assert(usage_score(pre, name@) == c) by {
                            lemma_usage_skip_to(pre, i as int, name@);
                        }
                        lemma_usage_score_update(pre, self.entries@, i as int, name@);
                    }
                } else {
                    proof {
                        lemma_usage_skip_to(pre, i as int, name@);
                    }
                }
                return ;
            }
            i += 1;
        }
        let ghost pre = self.entries@;
        let key = name.to_owned();
        self.entries.push((key, 1));
        proof {
            lemma_usage_score_absent(pre, name@);
            lemma_usage_absent_has(pre, name@);
            lemma_usage_score_push(pre, name@, self.entries@.last());
            assert forall|other: Seq<char>| other != name@ implies usage_score(
                self.entries@,
                other,
            ) == usage_score(pre, other) by {
                lemma_usage_score_push(pre, other, self.entries@.last());
                if !usage_has(pre, other) {
                    lemma_usage_has_score(pre, other);
                }
            }
        }
    }
}

proof fn lemma_usage_skip_to(entries: Seq<(String, u32)>, i: int, name: Seq<char>)
    requires
        0 <= i < entries.len(),
        entries[i].0@ == name,
        forall|k: int| 0 <= k < i ==> entries[k].0@ != name,
    ensures
        usage_score(entries, name) == entries[i].1,
        usage_has(entries, name),
    decreases i,
{
    if i > 0 {
        assert(entries.skip(1)[i - 1] == entries[i]);
        lemma_usage_skip_to(entries.skip(1), i - 1, name);
    }
}

proof fn lemma_usage_absent_has(entries: Seq<(String, u32)>, name: Seq<char>)
    requires
        forall|k: int| 0 <= k < entries.len() ==> entries[k].0@ != name,
    ensures
        !usage_has(entries, name),
    decreases entries.len(),
{
    if entries.len() > 0 {
        lemma_usage_absent_has(entries.skip(1), name);
    }
}

proof fn lemma_usage_has_score(entries: Seq<(String, u32)>, name: Seq<char>)
    requires
        !usage_has(entries, name),
    ensures
        usage_score(entries, name) == 0,
    decreases entries.len(),
{
    if entries.len() > 0 {
        lemma_usage_has_score(entries.skip(1), name);
    }
}

} // verus!
